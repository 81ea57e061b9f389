//! Reading numbers and addresses from text.

use crate::net::{SocketAddr, law_octets_make_up_the_address, octet, socket_text, v4_text};
use crate::text::{decimal, digit_char, hexadecimal, is_space, is_whitespace, numeral};
use vstd::prelude::*;

verus! {

/// Number of characters before the first `sep`, all of them when there is none.
pub open spec fn piece_len(s: Seq<char>, sep: char) -> int
    decreases s.len(),
{
    if s.len() == 0 || s.first() == sep {
        0
    } else {
        1 + piece_len(s.drop_first(), sep)
    }
}

/// The pieces between separators; there is always one more than separators.
pub open spec fn pieces(s: Seq<char>, sep: char) -> Seq<Seq<char>>
    decreases s.len(),
{
    let n = piece_len(s, sep);
    if 0 <= n < s.len() {
        seq![s.take(n)] + pieces(s.skip(n + 1), sep)
    } else {
        seq![s]
    }
}

/// Whether exec pieces are the given ones.
pub open spec fn same_pieces(v: Seq<Vec<char>>, p: Seq<Seq<char>>) -> bool {
    v.len() == p.len() && forall|i: int| 0 <= i < v.len() ==> (#[trigger] v[i])@ == p[i]
}

/// A copy of the characters from `from` up to `to`.
pub fn copy_chars(chars: &[char], from: usize, to: usize) -> (v: Vec<char>)
    requires
        from <= to <= chars@.len(),
    ensures
        v@ == chars@.subrange(from as int, to as int),
{
    let mut v: Vec<char> = Vec::new();
    let mut i: usize = from;
    while i < to
        invariant
            from <= i <= to <= chars@.len(),
            v@ == chars@.subrange(from as int, i as int),
        decreases to - i,
    {
        v.push(chars[i]);
        proof {
            assert(chars@.subrange(from as int, i + 1) =~= chars@.subrange(
                from as int,
                i as int,
            ).push(chars@[i as int]));
        }
        i += 1;
    }
    v
}

/// Splits at every `sep`.
pub fn split(chars: &[char], sep: char) -> (v: Vec<Vec<char>>)
    ensures
        same_pieces(v@, pieces(chars@, sep)),
        v@.len() >= 1,
{
    let mut v: Vec<Vec<char>> = Vec::new();
    let mut from: usize = 0;
    let ghost all = pieces(chars@, sep);
    proof {
        assert(chars@.skip(0) =~= chars@);
    }
    loop
        invariant
            from <= chars@.len(),
            all == pieces(chars@, sep),
            v@.len() + pieces(chars@.skip(from as int), sep).len() == all.len(),
            forall|i: int| 0 <= i < v@.len() ==> (#[trigger] v@[i])@ == all[i],
            forall|i: int|
                0 <= i < pieces(chars@.skip(from as int), sep).len() ==> #[trigger] pieces(
                    chars@.skip(from as int),
                    sep,
                )[i] == all[v@.len() + i],
        decreases chars@.len() - from,
    {
        let ghost s = chars@.skip(from as int);
        let mut n: usize = from;
        while n < chars.len() && chars[n] != sep
            invariant
                from <= n <= chars@.len(),
                s == chars@.skip(from as int),
                piece_len(s, sep) == (n - from) + piece_len(chars@.skip(n as int), sep),
            ensures
                from <= n <= chars@.len(),
                piece_len(s, sep) == n - from,
                n < chars@.len() ==> chars@[n as int] == sep,
            decreases chars@.len() - n,
        {
            proof {
                assert(chars@.skip(n as int).drop_first() =~= chars@.skip(n + 1));
            }
            n += 1;
        }
        let piece = copy_chars(chars, from, n);
        proof {
            if n < chars@.len() {
                assert(piece@ =~= s.take(n - from));
                assert(s.skip(n - from + 1) =~= chars@.skip(n + 1));
                assert(pieces(s, sep) == seq![piece@] + pieces(chars@.skip(n + 1), sep));
                assert(pieces(s, sep)[0] == piece@);
                assert forall|i: int| 0 <= i < pieces(chars@.skip(n + 1), sep).len() implies
                    #[trigger] pieces(chars@.skip(n + 1), sep)[i] == all[v@.len() + 1 + i] by {
                    assert(pieces(s, sep)[i + 1] == pieces(chars@.skip(n + 1), sep)[i]);
                }
            } else {
                assert(piece@ =~= s);
                assert(pieces(s, sep) == seq![s]);
                assert(pieces(s, sep)[0] == piece@);
            }
        }
        v.push(piece);
        if n == chars.len() {
            return v;
        }
        from = n + 1;
    }
}

/// Number of characters before the first white space, all of them when there is none.
pub open spec fn word_len(s: Seq<char>) -> int
    decreases s.len(),
{
    if s.len() == 0 || is_space(s.first()) {
        0
    } else {
        1 + word_len(s.drop_first())
    }
}

/// The words between white space.
pub open spec fn words(s: Seq<char>) -> Seq<Seq<char>>
    decreases s.len(),
{
    if s.len() == 0 {
        Seq::empty()
    } else if is_space(s.first()) {
        words(s.drop_first())
    } else {
        proof {
            lemma_word_len(s);
        }
        seq![s.take(word_len(s))] + words(s.skip(word_len(s)))
    }
}

/// A word is a part of the text.
pub proof fn lemma_word_len(s: Seq<char>)
    ensures
        0 <= word_len(s) <= s.len(),
        s.len() > 0 && !is_space(s.first()) ==> word_len(s) > 0,
    decreases s.len(),
{
    if s.len() > 0 && !is_space(s.first()) {
        lemma_word_len(s.drop_first());
    }
}

/// Splits the characters from `from` up to `to` at white space.
pub fn words_of(chars: &[char], from: usize, to: usize) -> (v: Vec<Vec<char>>)
    requires
        from <= to <= chars@.len(),
    ensures
        same_pieces(v@, words(chars@.subrange(from as int, to as int))),
{
    let mut v: Vec<Vec<char>> = Vec::new();
    let mut i: usize = from;
    let ghost all = words(chars@.subrange(from as int, to as int));
    while i < to
        invariant
            from <= i <= to <= chars@.len(),
            v@.len() + words(chars@.subrange(i as int, to as int)).len() == all.len(),
            forall|k: int| 0 <= k < v@.len() ==> (#[trigger] v@[k])@ == all[k],
            forall|k: int|
                0 <= k < words(chars@.subrange(i as int, to as int)).len() ==> #[trigger] words(
                    chars@.subrange(i as int, to as int),
                )[k] == all[v@.len() + k],
        decreases to - i,
    {
        let ghost rest = chars@.subrange(i as int, to as int);
        if is_whitespace(chars[i]) {
            proof {
                assert(rest.drop_first() =~= chars@.subrange(i + 1, to as int));
            }
            i += 1;
        } else {
            let start: usize = i;
            while i < to && !is_whitespace(chars[i])
                invariant
                    start <= i <= to <= chars@.len(),
                    rest == chars@.subrange(start as int, to as int),
                    word_len(rest) == (i - start) + word_len(chars@.subrange(i as int, to as int)),
                ensures
                    start <= i <= to,
                    word_len(rest) == i - start,
                decreases to - i,
            {
                proof {
                    assert(chars@.subrange(i as int, to as int).drop_first() =~= chars@.subrange(
                        i + 1,
                        to as int,
                    ));
                }
                i += 1;
            }
            proof {
                lemma_word_len(rest);
                assert(rest.take(i - start) =~= chars@.subrange(start as int, i as int));
                assert(rest.skip(i - start) =~= chars@.subrange(i as int, to as int));
                assert(words(rest)[0] == all[v@.len() as int]);
                assert forall|k: int|
                    0 <= k < words(chars@.subrange(i as int, to as int)).len() implies #[trigger] words(
                    chars@.subrange(i as int, to as int),
                )[k] == all[v@.len() + 1 + k] by {
                    assert(words(rest)[k + 1] == all[v@.len() + (k + 1)]);
                }
            }
            v.push(copy_chars(chars, start, i));
        }
    }
    v
}

/// The value of a digit in base sixteen, `None` of any other character.
pub open spec fn hex_digit(c: char) -> Option<nat> {
    if '0' <= c && c <= '9' {
        Some((c as u32 - 48) as nat)
    } else if 'a' <= c && c <= 'f' {
        Some((c as u32 - 87) as nat)
    } else if 'A' <= c && c <= 'F' {
        Some((c as u32 - 55) as nat)
    } else {
        None
    }
}

/// The value of a digit below `base`, at most sixteen.
pub open spec fn digit_in(c: char, base: nat) -> Option<nat> {
    match hex_digit(c) {
        Some(d) => if d < base {
            Some(d)
        } else {
            None
        },
        None => None,
    }
}

/// The number that digits stand for; `None` when there is none, or one is no digit.
pub open spec fn digits_value(s: Seq<char>, base: nat) -> Option<nat>
    decreases s.len(),
{
    if s.len() == 0 {
        None
    } else if s.len() == 1 {
        digit_in(s[0], base)
    } else {
        match (digits_value(s.drop_last(), base), digit_in(s.last(), base)) {
            (Some(n), Some(d)) => Some(n * base + d),
            _ => None,
        }
    }
}

/// The digit value of `c` in `base`.
pub fn digit_value(c: char, base: u32) -> (r: Option<u32>)
    requires
        base <= 16,
    ensures
        match r {
            Some(d) => digit_in(c, base as nat) == Some(d as nat) && d < base,
            None => digit_in(c, base as nat) is None,
        },
{
    let u: u32 = c as u32;
    let d: u32 = if '0' <= c && c <= '9' {
        u - 48
    } else if 'a' <= c && c <= 'f' {
        u - 87
    } else if 'A' <= c && c <= 'F' {
        u - 55
    } else {
        return None;
    };
    if d < base {
        Some(d)
    } else {
        None
    }
}

proof fn lemma_digits_prefix(s: Seq<char>, n: int, base: nat)
    requires
        1 <= n <= s.len(),
        digits_value(s, base) is Some,
        base >= 1,
    ensures
        digits_value(s.take(n), base) is Some,
        digits_value(s.take(n), base)->0 <= digits_value(s, base)->0,
    decreases s.len(),
{
    if n == s.len() {
        assert(s.take(n) =~= s);
    } else {
        lemma_digits_prefix(s.drop_last(), n, base);
        assert(s.drop_last().take(n) =~= s.take(n));
        let m = digits_value(s.drop_last(), base)->0;
        assert(m <= m * base) by (nonlinear_arith)
            requires
                base >= 1,
        ;
    }
}

/// The number that digits stand for, if it is at most `max`.
pub fn parse_digits(chars: &[char], from: usize, base: u32, max: u64) -> (r: Option<u64>)
    requires
        from <= chars@.len(),
        2 <= base <= 16,
    ensures
        match r {
            Some(n) => digits_value(chars@.skip(from as int), base as nat) == Some(n as nat) && n
                <= max,
            None => match digits_value(chars@.skip(from as int), base as nat) {
                Some(n) => n > max,
                None => true,
            },
        },
{
    let ghost s = chars@.skip(from as int);
    if from == chars.len() {
        return None;
    }
    let mut n: u64 = 0;
    let mut i: usize = from;
    while i < chars.len()
        invariant
            from <= i <= chars@.len(),
            from < chars@.len(),
            s == chars@.skip(from as int),
            2 <= base <= 16,
            n <= max,
            i == from ==> n == 0,
            i > from ==> digits_value(s.take(i - from), base as nat) == Some(n as nat),
        decreases chars@.len() - i,
    {
        let ghost t = s.take(i - from + 1);
        proof {
            assert(t.drop_last() =~= s.take(i - from));
            assert(t.last() == chars@[i as int]);
        }
        match digit_value(chars[i], base) {
            None => {
                proof {
                    if digits_value(s, base as nat) is Some {
                        lemma_digits_prefix(s, i - from + 1, base as nat);
                    }
                }
                return None;
            },
            Some(d) => {
                proof {
                    assert(n * base <= 0xffff_ffff_ffff_ffff * 16) by (nonlinear_arith)
                        requires
                            n <= 0xffff_ffff_ffff_ffff,
                            base <= 16,
                    ;
                    if i == from {
                        assert(t.len() == 1);
                        assert(n * base == 0) by (nonlinear_arith)
                            requires
                                n == 0,
                        ;
                    }
                    assert(digits_value(t, base as nat) == Some((n * base + d) as nat));
                }
                let next: u128 = (n as u128) * (base as u128) + d as u128;
                if next > max as u128 {
                    proof {
                        if digits_value(s, base as nat) is Some {
                            lemma_digits_prefix(s, i - from + 1, base as nat);
                        }
                    }
                    return None;
                }
                n = next as u64;
            },
        }
        i += 1;
    }
    proof {
        assert(s.take(s.len() as int) =~= s);
    }
    Some(n)
}

/// A decimal number up to `max`, which a plus sign may precede.
pub open spec fn number_of(s: Seq<char>, max: nat) -> Option<nat> {
    let d = if s.len() > 1 && s[0] == '+' {
        s.skip(1)
    } else {
        s
    };
    match digits_value(d, 10) {
        Some(n) => if n <= max {
            Some(n)
        } else {
            None
        },
        None => None,
    }
}

/// Reads a decimal number up to `max`.
pub fn parse_number(chars: &[char], max: u64) -> (r: Option<u64>)
    ensures
        match r {
            Some(n) => number_of(chars@, max as nat) == Some(n as nat),
            None => number_of(chars@, max as nat) is None,
        },
{
    let from: usize = if chars.len() > 1 && chars[0] == '+' {
        1
    } else {
        0
    };
    proof {
        assert(chars@.skip(0) =~= chars@);
    }
    parse_digits(chars, from, 10, max)
}

/// A decimal number up to 255, which a plus sign may precede.
pub open spec fn u8_of(s: Seq<char>) -> Option<u8> {
    match number_of(s, 255) {
        Some(n) => Some(n as u8),
        None => None,
    }
}

/// Reads a decimal number up to 255.
pub fn parse_u8(chars: &[char]) -> (r: Option<u8>)
    ensures
        r == u8_of(chars@),
{
    match parse_number(chars, 255) {
        Some(n) => Some(n as u8),
        None => None,
    }
}

/// An octet of an address: one to three decimal digits without a leading zero, at most 255.
pub open spec fn octet_of(s: Seq<char>) -> Option<nat> {
    if 1 <= s.len() <= 3 && (s.len() == 1 || s[0] != '0') {
        match digits_value(s, 10) {
            Some(n) => if n <= 255 {
                Some(n)
            } else {
                None
            },
            None => None,
        }
    } else {
        None
    }
}

/// An IPv4 address in dotted decimal.
pub open spec fn v4_of(s: Seq<char>) -> Option<u32> {
    let p = pieces(s, '.');
    if p.len() != 4 {
        None
    } else {
        match (octet_of(p[0]), octet_of(p[1]), octet_of(p[2]), octet_of(p[3])) {
            (Some(a), Some(b), Some(c), Some(d)) => Some(
                (a * 0x100_0000 + b * 0x1_0000 + c * 0x100 + d) as u32,
            ),
            _ => None,
        }
    }
}

fn parse_octet(chars: &[char]) -> (r: Option<u32>)
    ensures
        match r {
            Some(n) => octet_of(chars@) == Some(n as nat) && n <= 255,
            None => octet_of(chars@) is None,
        },
{
    if chars.len() < 1 || chars.len() > 3 || (chars.len() > 1 && chars[0] == '0') {
        return None;
    }
    proof {
        assert(chars@.skip(0) =~= chars@);
    }
    match parse_digits(chars, 0, 10, 255) {
        Some(n) => Some(n as u32),
        None => None,
    }
}

/// Reads an IPv4 address.
pub fn parse_v4(chars: &[char]) -> (r: Option<u32>)
    ensures
        r == v4_of(chars@),
{
    let p = split(chars, '.');
    if p.len() != 4 {
        return None;
    }
    assert(p@[0]@ == pieces(chars@, '.')[0]);
    assert(p@[1]@ == pieces(chars@, '.')[1]);
    assert(p@[2]@ == pieces(chars@, '.')[2]);
    assert(p@[3]@ == pieces(chars@, '.')[3]);
    match (
        parse_octet(p[0].as_slice()),
        parse_octet(p[1].as_slice()),
        parse_octet(p[2].as_slice()),
        parse_octet(p[3].as_slice()),
    ) {
        (Some(a), Some(b), Some(c), Some(d)) => Some(
            a * 0x100_0000 + b * 0x1_0000 + c * 0x100 + d,
        ),
        _ => None,
    }
}

/// A group of an IPv6 address: one to four hexadecimal digits.
pub open spec fn group_of(s: Seq<char>) -> Option<u16> {
    if 1 <= s.len() <= 4 {
        match digits_value(s, 16) {
            Some(n) => if n <= 0xffff {
                Some(n as u16)
            } else {
                None
            },
            None => None,
        }
    } else {
        None
    }
}

/// The groups of pieces between colons. If `tail`, the last piece may be an IPv4 address, which
/// stands for two groups.
pub open spec fn groups_of(p: Seq<Seq<char>>, tail: bool) -> Option<Seq<u16>>
    decreases p.len(),
{
    if p.len() == 0 {
        Some(Seq::empty())
    } else {
        match group_of(p.first()) {
            Some(g) => match groups_of(p.drop_first(), tail) {
                Some(rest) => Some(seq![g] + rest),
                None => None,
            },
            None => if tail && p.len() == 1 {
                match v4_of(p.first()) {
                    Some(a) => Some(seq![(a / 0x1_0000) as u16, (a % 0x1_0000) as u16]),
                    None => None,
                }
            } else {
                None
            },
        }
    }
}

/// The groups of a text between colons; an empty text has none.
pub open spec fn groups_in(s: Seq<char>, tail: bool) -> Option<Seq<u16>> {
    if s.len() == 0 {
        Some(Seq::empty())
    } else {
        groups_of(pieces(s, ':'), tail)
    }
}

/// Number of characters before the first double colon, all of them when there is none.
pub open spec fn gap_at(s: Seq<char>) -> int
    decreases s.len(),
{
    if s.len() < 2 {
        s.len() as int
    } else if s[0] == ':' && s[1] == ':' {
        0
    } else {
        1 + gap_at(s.drop_first())
    }
}

/// The number that groups stand for, the highest first.
pub open spec fn groups_value(g: Seq<u16>) -> nat
    decreases g.len(),
{
    if g.len() == 0 {
        0
    } else {
        groups_value(g.drop_last()) * 0x1_0000 + g.last() as nat
    }
}

/// The eight groups of an IPv6 address: all written out, or with one double colon that stands
/// for one or more zero groups.
pub open spec fn v6_groups(s: Seq<char>) -> Option<Seq<u16>> {
    let n = gap_at(s);
    if 0 <= n && n + 2 <= s.len() {
        match (groups_in(s.take(n), false), groups_in(s.skip(n + 2), true)) {
            (Some(head), Some(tail)) => if head.len() + tail.len() <= 7 {
                Some(
                    head + Seq::new((8 - head.len() - tail.len()) as nat, |i: int| 0u16) + tail,
                )
            } else {
                None
            },
            _ => None,
        }
    } else if s.len() == 0 {
        None
    } else {
        match groups_in(s, true) {
            Some(g) => if g.len() == 8 {
                Some(g)
            } else {
                None
            },
            None => None,
        }
    }
}

/// An IPv6 address.
pub open spec fn v6_of(s: Seq<char>) -> Option<u128> {
    match v6_groups(s) {
        Some(g) => Some(groups_value(g) as u128),
        None => None,
    }
}

fn parse_group(chars: &[char]) -> (r: Option<u16>)
    ensures
        r == group_of(chars@),
{
    if chars.len() < 1 || chars.len() > 4 {
        return None;
    }
    proof {
        assert(chars@.skip(0) =~= chars@);
    }
    match parse_digits(chars, 0, 16, 0xffff) {
        Some(n) => Some(n as u16),
        None => None,
    }
}

fn parse_groups(chars: &[char], tail: bool) -> (r: Option<Vec<u16>>)
    ensures
        match r {
            Some(g) => groups_in(chars@, tail) == Some(g@),
            None => groups_in(chars@, tail) is None,
        },
{
    let mut g: Vec<u16> = Vec::new();
    if chars.len() == 0 {
        return Some(g);
    }
    let p = split(chars, ':');
    let ghost all = pieces(chars@, ':');
    let mut i: usize = 0;
    proof {
        assert(all.skip(0) =~= all);
    }
    while i < p.len()
        invariant
            i <= p@.len(),
            chars@.len() > 0,
            all == pieces(chars@, ':'),
            same_pieces(p@, all),
            match groups_of(all.skip(i as int), tail) {
                Some(rest) => groups_of(all, tail) == Some(g@ + rest),
                None => groups_of(all, tail) is None,
            },
        decreases p@.len() - i,
    {
        let ghost rest = all.skip(i as int);
        proof {
            assert(rest.first() == p@[i as int]@);
            assert(rest.drop_first() =~= all.skip(i + 1));
        }
        match parse_group(p[i].as_slice()) {
            Some(v) => {
                let ghost before = g@;
                g.push(v);
                proof {
                    match groups_of(all.skip(i + 1), tail) {
                        Some(r2) => {
                            assert(before + (seq![v] + r2) =~= g@ + r2);
                        },
                        None => {},
                    }
                }
            },
            None => {
                if tail && i + 1 == p.len() {
                    match parse_v4(p[i].as_slice()) {
                        Some(a) => {
                            let hi: u16 = (a / 0x1_0000) as u16;
                            let lo: u16 = (a % 0x1_0000) as u16;
                            let ghost before = g@;
                            g.push(hi);
                            g.push(lo);
                            proof {
                                assert(before + seq![hi, lo] =~= g@);
                            }
                            return Some(g);
                        },
                        None => {
                            return None;
                        },
                    }
                }
                return None;
            },
        }
        i += 1;
    }
    proof {
        assert(all.skip(i as int) =~= Seq::empty());
        assert(g@ + Seq::<u16>::empty() =~= g@);
    }
    Some(g)
}

/// Reads an IPv6 address.
pub fn parse_v6(chars: &[char]) -> (r: Option<u128>)
    ensures
        r == v6_of(chars@),
{
    let ghost s = chars@;
    let mut n: usize = 0;
    proof {
        assert(s.skip(0) =~= s);
    }
    while n < chars.len() && chars.len() - n >= 2 && !(chars[n] == ':' && chars[n + 1] == ':')
        invariant
            n <= chars@.len(),
            s == chars@,
            gap_at(s) == n + gap_at(s.skip(n as int)),
        ensures
            n <= chars@.len(),
            n + 2 <= chars@.len() ==> gap_at(s) == n,
            n + 2 > chars@.len() ==> gap_at(s) == chars@.len(),
        decreases chars@.len() - n,
    {
        proof {
            assert(s.skip(n as int).drop_first() =~= s.skip(n + 1));
        }
        n += 1;
    }
    let mut g: Vec<u16> = Vec::new();
    if chars.len() - n >= 2 {
        let head_text = copy_chars(chars, 0, n);
        let tail_text = copy_chars(chars, n + 2, chars.len());
        proof {
            assert(head_text@ =~= s.take(n as int));
            assert(tail_text@ =~= s.skip(n + 2));
        }
        let head = match parse_groups(head_text.as_slice(), false) {
            Some(h) => h,
            None => {
                return None;
            },
        };
        let tail = match parse_groups(tail_text.as_slice(), true) {
            Some(t) => t,
            None => {
                return None;
            },
        };
        if head.len() > 7 || tail.len() > 7 - head.len() {
            return None;
        }
        let zeros: usize = 8 - head.len() - tail.len();
        let ghost z = Seq::new(zeros as nat, |i: int| 0u16);
        let mut i: usize = 0;
        while i < head.len()
            invariant
                i <= head@.len(),
                g@ == head@.take(i as int),
            decreases head@.len() - i,
        {
            g.push(head[i]);
            proof {
                assert(head@.take(i + 1) =~= head@.take(i as int).push(head@[i as int]));
            }
            i += 1;
        }
        proof {
            assert(g@ =~= head@ + z.take(0));
        }
        i = 0;
        while i < zeros
            invariant
                i <= zeros,
                z == Seq::new(zeros as nat, |i: int| 0u16),
                g@ == head@ + z.take(i as int),
            decreases zeros - i,
        {
            g.push(0);
            proof {
                assert(head@ + z.take(i + 1) =~= (head@ + z.take(i as int)).push(0));
            }
            i += 1;
        }
        proof {
            assert(g@ =~= head@ + z + tail@.take(0));
        }
        i = 0;
        while i < tail.len()
            invariant
                i <= tail@.len(),
                g@ == head@ + z + tail@.take(i as int),
            decreases tail@.len() - i,
        {
            g.push(tail[i]);
            proof {
                assert(head@ + z + tail@.take(i + 1) =~= (head@ + z + tail@.take(i as int)).push(
                    tail@[i as int],
                ));
            }
            i += 1;
        }
        proof {
            assert(g@ =~= head@ + z + tail@);
        }
    } else {
        if chars.len() == 0 {
            return None;
        }
        match parse_groups(chars, true) {
            Some(all) => {
                if all.len() != 8 {
                    return None;
                }
                g = all;
            },
            None => {
                return None;
            },
        }
    }
    let mut v: u128 = 0;
    let mut i: usize = 0;
    let ghost mut p: nat = 1;
    proof {
        vstd::arithmetic::power::lemma_pow0(0x1_0000);
    }
    while i < g.len()
        invariant
            i <= g@.len(),
            g@.len() == 8,
            v == groups_value(g@.take(i as int)),
            v < p,
            p == vstd::arithmetic::power::pow(0x1_0000, i as nat),
        decreases g@.len() - i,
    {
        proof {
            assert(g@.take(i + 1).drop_last() =~= g@.take(i as int));
            vstd::arithmetic::power::lemma_pow_increases(0x1_0000, i as nat, 7);
            assert(vstd::arithmetic::power::pow(0x1_0000, 7)
                == 0x1_0000_0000_0000_0000_0000_0000_0000) by {
                reveal_with_fuel(vstd::arithmetic::power::pow, 8);
            }
            reveal_with_fuel(vstd::arithmetic::power::pow, 2);
            p = p * 0x1_0000;
        }
        v = v * 0x1_0000 + g[i] as u128;
        i += 1;
    }
    proof {
        assert(g@.take(8) =~= g@);
    }
    Some(v)
}

proof fn lemma_digit_is_read_back(d: nat)
    requires
        d < 16,
    ensures
        hex_digit(digit_char(d)) == Some(d),
        digit_char(d) != '+',
        digit_char(d) != '.',
        digit_char(d) != ':',
        digit_char(d) != '/',
        d != 0 ==> digit_char(d) != '0',
{
}

proof fn lemma_numeral(n: nat, base: nat)
    requires
        2 <= base <= 16,
    ensures
        numeral(n, base).len() >= 1,
        forall|i: int|
            0 <= i < numeral(n, base).len() ==> #[trigger] numeral(n, base)[i] != '+' && numeral(
                n,
                base,
            )[i] != '.' && numeral(n, base)[i] != ':' && numeral(n, base)[i] != '/',
        n > 0 ==> numeral(n, base)[0] != '0',
        numeral(n, base).len() > 1 ==> n >= base,
    decreases n,
{
    if n < base {
        lemma_digit_is_read_back(n);
    } else {
        assert(0 < n / base < n) by (nonlinear_arith)
            requires
                base >= 2,
                n >= base,
        ;
        assert(n % base < base) by (nonlinear_arith)
            requires
                base >= 2,
        ;
        lemma_numeral(n / base, base);
        lemma_digit_is_read_back(n % base);
    }
}

/// A number that was written is read back, in decimal as in hexadecimal.
pub proof fn law_numbers_are_read_back(n: nat, base: nat)
    requires
        2 <= base <= 16,
    ensures
        digits_value(numeral(n, base), base) == Some(n),
    decreases n,
{
    lemma_numeral(n, base);
    if n < base {
        lemma_digit_is_read_back(n);
    } else {
        assert(n / base < n) by (nonlinear_arith)
            requires
                base >= 2,
                n >= base,
        ;
        assert(n % base < base && n / base * base + n % base == n) by (nonlinear_arith)
            requires
                base >= 2,
        ;
        law_numbers_are_read_back(n / base, base);
        lemma_numeral(n / base, base);
        lemma_digit_is_read_back(n % base);
        assert(numeral(n, base).drop_last() =~= numeral(n / base, base));
    }
}

/// Numbers up to the largest that fits are read from their decimal form, and larger ones are
/// refused.
pub proof fn law_numbers_have_a_bound(n: nat, max: nat)
    ensures
        number_of(decimal(n), max) == (if n <= max {
            Some(n)
        } else {
            None
        }),
{
    law_numbers_are_read_back(n, 10);
    lemma_numeral(n, 10);
}

/// Different numbers are written differently.
pub proof fn law_numerals_are_distinct(a: nat, b: nat, base: nat)
    requires
        2 <= base <= 16,
        numeral(a, base) == numeral(b, base),
    ensures
        a == b,
{
    law_numbers_are_read_back(a, base);
    law_numbers_are_read_back(b, base);
}

proof fn lemma_piece_len(s: Seq<char>, rest: Seq<char>, sep: char)
    requires
        forall|i: int| 0 <= i < s.len() ==> #[trigger] s[i] != sep,
    ensures
        piece_len(s + seq![sep] + rest, sep) == s.len(),
        piece_len(s, sep) == s.len(),
    decreases s.len(),
{
    let all = s + seq![sep] + rest;
    if s.len() > 0 {
        assert(s.first() == s[0]);
        assert(all.first() == s[0]);
        assert(all.drop_first() =~= s.drop_first() + seq![sep] + rest);
        assert forall|i: int| 0 <= i < s.drop_first().len() implies #[trigger] s.drop_first()[i]
            != sep by {
            assert(s.drop_first()[i] == s[i + 1]);
        }
        lemma_piece_len(s.drop_first(), rest, sep);
    } else {
        assert(all.first() == sep);
    }
}

/// What stands before a separator is a piece of its own, and what follows it is cut the same way;
/// a text without separators is one piece.
pub proof fn law_separators_part_pieces(s: Seq<char>, rest: Seq<char>, sep: char)
    requires
        forall|i: int| 0 <= i < s.len() ==> #[trigger] s[i] != sep,
    ensures
        pieces(s + seq![sep] + rest, sep) == seq![s] + pieces(rest, sep),
        pieces(s, sep) == seq![s],
{
    lemma_piece_len(s, rest, sep);
    let all = s + seq![sep] + rest;
    assert(all.take(s.len() as int) =~= s);
    assert(all.skip(s.len() as int + 1) =~= rest);
}

proof fn lemma_octet_is_read_back(n: nat)
    requires
        n <= 255,
    ensures
        octet_of(decimal(n)) == Some(n),
        forall|i: int| 0 <= i < decimal(n).len() ==> #[trigger] decimal(n)[i] != '.',
{
    law_numbers_are_read_back(n, 10);
    lemma_numeral(n, 10);
    if n >= 10 {
        lemma_numeral(n / 10, 10);
        if n / 10 >= 10 {
            lemma_numeral(n / 10 / 10, 10);
        }
    }
}

/// The digits of a number are digits: no sign and no separator is among them.
pub proof fn law_digits_are_plain(n: nat, base: nat)
    requires
        2 <= base <= 16,
    ensures
        numeral(n, base).len() >= 1,
        forall|i: int|
            0 <= i < numeral(n, base).len() ==> #[trigger] numeral(n, base)[i] != '+' && numeral(
                n,
                base,
            )[i] != '.' && numeral(n, base)[i] != ':' && numeral(n, base)[i] != '/',
{
    lemma_numeral(n, base);
}

/// An IPv4 address is written as its four octets with dots between them, and with nothing that
/// separates it from a prefix length or a port.
pub proof fn law_v4_addresses_have_four_pieces(a: u32)
    ensures
        pieces(v4_text(a), '.') == seq![
            decimal(octet(a, 0)),
            decimal(octet(a, 1)),
            decimal(octet(a, 2)),
            decimal(octet(a, 3)),
        ],
        forall|i: int|
            0 <= i < v4_text(a).len() ==> #[trigger] v4_text(a)[i] != '/' && v4_text(a)[i] != ':',
{
    law_octets_make_up_the_address(a);
    let o0 = decimal(octet(a, 0));
    let o1 = decimal(octet(a, 1));
    let o2 = decimal(octet(a, 2));
    let o3 = decimal(octet(a, 3));
    lemma_numeral(octet(a, 0), 10);
    lemma_numeral(octet(a, 1), 10);
    lemma_numeral(octet(a, 2), 10);
    lemma_numeral(octet(a, 3), 10);
    reveal_strlit(".");
    let dot = seq!['.'];
    assert("."@ =~= dot);
    let t2 = o2 + dot + o3;
    let t1 = o1 + dot + t2;
    assert(v4_text(a) =~= o0 + dot + t1);
    law_separators_part_pieces(o0, t1, '.');
    law_separators_part_pieces(o1, t2, '.');
    law_separators_part_pieces(o2, o3, '.');
    law_separators_part_pieces(o3, Seq::empty(), '.');
    assert(pieces(v4_text(a), '.') =~= seq![o0, o1, o2, o3]);
}

/// An IPv4 address that was written is read back.
pub proof fn law_v4_addresses_are_read_back(a: u32)
    ensures
        v4_of(v4_text(a)) == Some(a),
{
    law_v4_addresses_have_four_pieces(a);
    law_octets_make_up_the_address(a);
    lemma_octet_is_read_back(octet(a, 0));
    lemma_octet_is_read_back(octet(a, 1));
    lemma_octet_is_read_back(octet(a, 2));
    lemma_octet_is_read_back(octet(a, 3));
}

/// Different IPv4 addresses, and different ports, are shown differently.
pub proof fn law_v4_sockets_are_told_apart(a: SocketAddr, b: SocketAddr)
    requires
        a.ip is V4,
        b.ip is V4,
        socket_text(a) == socket_text(b),
    ensures
        a.ip == b.ip,
        a.port == b.port,
{
    let x = a.ip->V4_0;
    let y = b.ip->V4_0;
    reveal_strlit(":");
    assert(":"@ =~= seq![':']);
    law_v4_addresses_have_four_pieces(x);
    law_v4_addresses_have_four_pieces(y);
    law_digits_are_plain(a.port as nat, 10);
    law_digits_are_plain(b.port as nat, 10);
    law_separators_part_pieces(v4_text(x), decimal(a.port as nat), ':');
    law_separators_part_pieces(v4_text(y), decimal(b.port as nat), ':');
    law_separators_part_pieces(decimal(a.port as nat), Seq::empty(), ':');
    law_separators_part_pieces(decimal(b.port as nat), Seq::empty(), ':');
    let p = pieces(socket_text(a), ':');
    assert(p[0] == v4_text(x) && p[1] == decimal(a.port as nat));
    assert(p[0] == v4_text(y) && p[1] == decimal(b.port as nat));
    law_v4_addresses_are_read_back(x);
    law_v4_addresses_are_read_back(y);
    law_numerals_are_distinct(a.port as nat, b.port as nat, 10);
}

/// A group of an IPv6 address that was written is read back.
pub proof fn law_groups_are_read_back(g: u16)
    ensures
        group_of(hexadecimal(g as nat)) == Some(g),
{
    law_numbers_are_read_back(g as nat, 16);
    lemma_numeral(g as nat, 16);
    let n = g as nat;
    if n >= 16 {
        lemma_numeral(n / 16, 16);
        if n / 16 >= 16 {
            lemma_numeral(n / 16 / 16, 16);
            if n / 16 / 16 >= 16 {
                lemma_numeral(n / 16 / 16 / 16, 16);
            }
        }
    }
}

/// Groups stand for a number with the highest first, each worth sixteen bits.
pub proof fn law_groups_make_up_the_address(g: Seq<u16>, last: u16)
    ensures
        groups_value(g.push(last)) == groups_value(g) * 65536 + last,
        groups_value(Seq::<u16>::empty()) == 0,
{
    assert(g.push(last).drop_last() =~= g);
}

/// Eight groups with colons between them are an address; a double colon stands for as many zero
/// groups as are missing, at least one.
pub proof fn law_double_colons_stand_for_zeros(s: Seq<char>)
    ensures
        v6_groups(s) matches Some(g) ==> g.len() == 8,
        ({
            let n = gap_at(s);
            0 <= n && n + 2 <= s.len() ==> (v6_groups(s) matches Some(g) ==> {
                let head = groups_in(s.take(n), false)->0;
                let tail = groups_in(s.skip(n + 2), true)->0;
                &&& head.len() + tail.len() <= 7
                &&& g.take(head.len() as int) == head
                &&& g.skip(8 - tail.len()) == tail
                &&& forall|i: int| head.len() <= i < 8 - tail.len() ==> #[trigger] g[i] == 0
            })
        }),
{
    let n = gap_at(s);
    if 0 <= n && n + 2 <= s.len() && v6_groups(s) is Some {
        let g = v6_groups(s)->0;
        let head = groups_in(s.take(n), false)->0;
        let tail = groups_in(s.skip(n + 2), true)->0;
        assert(g.take(head.len() as int) =~= head);
        assert(g.skip(8 - tail.len()) =~= tail);
    }
}

/// Words are the parts between white space: none is empty, none holds white space, and white space
/// before them does not matter.
pub proof fn law_words_hold_no_space(s: Seq<char>, i: int)
    requires
        0 <= i < words(s).len(),
    ensures
        words(s)[i].len() > 0,
        forall|k: int| 0 <= k < words(s)[i].len() ==> !is_space(#[trigger] words(s)[i][k]),
    decreases s.len(),
{
    if s.len() > 0 {
        if is_space(s.first()) {
            law_words_hold_no_space(s.drop_first(), i);
        } else {
            lemma_word_len(s);
            lemma_word_is_plain(s);
            if i > 0 {
                law_words_hold_no_space(s.skip(word_len(s)), i - 1);
            }
        }
    }
}

proof fn lemma_word_is_plain(s: Seq<char>)
    ensures
        0 <= word_len(s) <= s.len(),
        forall|k: int| 0 <= k < word_len(s) ==> !is_space(#[trigger] s[k]),
    decreases s.len(),
{
    if s.len() > 0 && !is_space(s.first()) {
        let rest = s.drop_first();
        lemma_word_is_plain(rest);
        assert forall|k: int| 0 <= k < word_len(s) implies !is_space(#[trigger] s[k]) by {
            if k > 0 {
                assert(rest[k - 1] == s[k]);
            }
        }
    }
}

} // verus!
