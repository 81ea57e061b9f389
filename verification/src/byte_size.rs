//! Byte counts for people.

use crate::rounding::{
    half_even, law_doubles_are_close, law_rounding_is_to_the_nearest, round_half_even,
    round_to_double, to_double,
};
use crate::text::{decimal, digit, digit_char, push_decimal};
use vstd::prelude::*;

verus! {

pub const KB: u64 = 1024;

pub const MB: u64 = 1024 * 1024;

pub const GB: u64 = 1024 * 1024 * 1024;

/// `n / unit` with two decimals, `n` taken in double precision and the decimals rounded half to
/// even.
pub open spec fn two_decimals(n: nat, unit: nat) -> Seq<char> {
    let hundredths = half_even(to_double(n) * 100, unit);
    decimal(hundredths / 100) + seq![
        '.',
        digit_char(hundredths / 10 % 10),
        digit_char(hundredths % 10),
    ]
}

/// A byte count in the largest unit that it reaches, with `gap` before the unit.
pub open spec fn byte_text(bytes: nat, gap: Seq<char>) -> Seq<char> {
    if bytes >= GB {
        two_decimals(bytes, GB as nat) + gap + "GB"@
    } else if bytes >= MB {
        two_decimals(bytes, MB as nat) + gap + "MB"@
    } else if bytes >= KB {
        two_decimals(bytes, KB as nat) + gap + "KB"@
    } else {
        decimal(bytes) + gap + "B"@
    }
}

fn push_two_decimals(out: &mut String, n: u64, unit: u64)
    requires
        1024 <= unit,
        n >= unit,
    ensures
        final(out)@ == old(out)@ + two_decimals(n as nat, unit as nat),
{
    let wide: u128 = round_to_double(n as u128);
    let hundredths: u128 = round_half_even(wide * 100, unit as u128);
    proof {
        assert(hundredths <= 0xffff_ffff_ffff_ffff) by (nonlinear_arith)
            requires
                hundredths * unit <= wide * 100 + unit,
                wide <= 2 * 0xffff_ffff_ffff_ffff,
                unit >= 1024,
        ;
    }
    let h: u64 = hundredths as u64;
    push_decimal(out, h / 100);
    out.push('.');
    out.push(digit((h / 10 % 10) as u8));
    out.push(digit((h % 10) as u8));
    proof {
        assert(out@ =~= old(out)@ + two_decimals(n as nat, unit as nat));
    }
}

/// A byte count as text, with `gap` between the number and the unit.
pub fn human_bytes(bytes: u64, gap: &str) -> (s: String)
    ensures
        s@ == byte_text(bytes as nat, gap@),
{
    let mut s = String::new();
    if bytes >= GB {
        push_two_decimals(&mut s, bytes, GB);
        s.append(gap);
        s.append("GB");
    } else if bytes >= MB {
        push_two_decimals(&mut s, bytes, MB);
        s.append(gap);
        s.append("MB");
    } else if bytes >= KB {
        push_two_decimals(&mut s, bytes, KB);
        s.append(gap);
        s.append("KB");
    } else {
        push_decimal(&mut s, bytes);
        s.append(gap);
        s.append("B");
    }
    proof {
        assert(s@ =~= byte_text(bytes as nat, gap@));
    }
    s
}

/// A byte count is told in the largest unit that it reaches.
pub proof fn law_bytes_are_told_in_the_largest_unit(n: nat, gap: Seq<char>)
    ensures
        n < 1024 ==> byte_text(n, gap) == decimal(n) + gap + "B"@,
        1024 <= n < 1_048_576 ==> byte_text(n, gap) == two_decimals(n, 1024) + gap + "KB"@,
        1_048_576 <= n < 1_073_741_824 ==> byte_text(n, gap) == two_decimals(n, 1_048_576) + gap
            + "MB"@,
        n >= 1_073_741_824 ==> byte_text(n, gap) == two_decimals(n, 1_073_741_824) + gap + "GB"@,
{
}

/// The two decimals are the nearest hundredth of the unit, as long as the count has no more digits
/// than a double-precision number.
pub proof fn law_two_decimals_are_the_nearest(n: nat, unit: nat)
    requires
        unit > 0,
        n < 0x20_0000_0000_0000,
    ensures
        exists|h: nat|
            two_decimals(n, unit) == #[trigger] in_hundredths(h) && 2 * (h * unit) <= 200 * n + unit
                && 200 * n <= 2 * (h * unit) + unit,
{
    law_doubles_are_close(n);
    let h = half_even(to_double(n) * 100, unit);
    law_rounding_is_to_the_nearest(to_double(n) * 100, unit);
    assert(two_decimals(n, unit) == in_hundredths(h));
}

/// A number of hundredths with two decimals.
pub open spec fn in_hundredths(h: nat) -> Seq<char> {
    decimal(h / 100) + seq!['.', digit_char(h / 10 % 10), digit_char(h % 10)]
}

} // verus!
