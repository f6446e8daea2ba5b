//! Human-readable numbers: byte sizes and digit grouping.

use vstd::prelude::*;
use crate::numbers::{decimal, push_decimal};
use crate::text::push_char;

verus! {

/// `n` rounded to the nearest integer after division by `d`, ties to even.
pub open spec fn div_round_half_even(n: nat, d: nat) -> nat
    recommends
        d > 0,
{
    let q = n / d;
    let r = n % d;
    if 2 * r > d || (2 * r == d && q % 2 == 1) {
        q + 1
    } else {
        q
    }
}

/// The digits of `n` padded with leading zeros to width two.
pub open spec fn two_digits(n: nat) -> Seq<char> {
    if n < 10 {
        seq!['0'] + decimal(n)
    } else {
        decimal(n)
    }
}

/// A count of hundredths written with two decimals, as in `12.34`.
pub open spec fn hundredths_text(h: nat) -> Seq<char> {
    decimal(h / 100) + seq!['.'] + two_digits(h % 100)
}

/// One kibibyte.
pub open spec fn kib() -> nat {
    1024
}

/// A size in bytes in the largest binary unit it reaches (B, KB, MB, GB,
/// TB), with two decimals above bytes.
pub open spec fn spec_format_file_size(size: nat) -> Seq<char> {
    let kb = kib();
    let mb = kb * kb;
    let gb = mb * kb;
    let tb = gb * kb;
    if size >= tb {
        hundredths_text(div_round_half_even(size * 100, tb)) + " TB"@
    } else if size >= gb {
        hundredths_text(div_round_half_even(size * 100, gb)) + " GB"@
    } else if size >= mb {
        hundredths_text(div_round_half_even(size * 100, mb)) + " MB"@
    } else if size >= kb {
        hundredths_text(div_round_half_even(size * 100, kb)) + " KB"@
    } else {
        decimal(size) + " B"@
    }
}

fn push_hundredths(s: &mut String, h: u128)
    requires
        h / 100 <= u64::MAX,
    ensures
        final(s)@ == old(s)@ + hundredths_text(h as nat),
{
    let whole = (h / 100) as u64;
    let frac = (h % 100) as u64;
    push_decimal(s, whole);
    push_char(s, '.');
    if frac < 10 {
        push_char(s, '0');
    }
    push_decimal(s, frac);
    assert(final(s)@ =~= old(s)@ + hundredths_text(h as nat));
}

fn round_half_even(n: u128, d: u128) -> (r: u128)
    requires
        d > 0,
        n / d < u128::MAX,
    ensures
        r == div_round_half_even(n as nat, d as nat),
{
    let q = n / d;
    let rem = n % d;
    if rem > d - rem || (rem == d - rem && q % 2 == 1) {
        q + 1
    } else {
        q
    }
}

/// A size in bytes for people: `512 B`, `1.50 KB`, `3.25 GB`, ...
pub fn format_file_size(size: u64) -> (s: String)
    ensures
        s@ == spec_format_file_size(size as nat),
{
    let kb: u128 = 1024;
    let mb: u128 = kb * kb;
    let gb: u128 = mb * kb;
    let tb: u128 = gb * kb;
    let big = size as u128;
    let mut s = String::new();
    if big < kb {
        push_decimal(&mut s, size);
        s.append(" B");
    } else {
        let (unit, name) = if big >= tb {
            (tb, " TB")
        } else if big >= gb {
            (gb, " GB")
        } else if big >= mb {
            (mb, " MB")
        } else {
            (kb, " KB")
        };
        proof {
            let n: int = big * 100;
            let u: int = unit as int;
            assert(n / u <= n / 1024) by (nonlinear_arith)
                requires u >= 1024, n >= 0;
            assert(n / 1024 <= n) by (nonlinear_arith)
                requires n >= 0;
        }
        let h = round_half_even(big * 100, unit);
        push_hundredths(&mut s, h);
        s.append(name);
    }
    assert(s@ =~= spec_format_file_size(size as nat));
    s
}

/// The digits of `n` padded with leading zeros to width three.
pub open spec fn three_digits(n: nat) -> Seq<char> {
    if n < 10 {
        seq!['0', '0'] + decimal(n)
    } else if n < 100 {
        seq!['0'] + decimal(n)
    } else {
        decimal(n)
    }
}

/// `n` in decimal with its digits grouped by threes with commas, as the
/// English locale writes counts: `1,234,567`.
pub open spec fn spec_format_count(n: nat) -> Seq<char>
    decreases n,
{
    if n < 1000 {
        decimal(n)
    } else {
        spec_format_count(n / 1000) + seq![','] + three_digits(n % 1000)
    }
}

/// Appends `n` with grouped digits.
pub fn push_count(s: &mut String, n: u64)
    ensures
        final(s)@ == old(s)@ + spec_format_count(n as nat),
    decreases n,
{
    if n < 1000 {
        push_decimal(s, n);
    } else {
        push_count(s, n / 1000);
        push_char(s, ',');
        let r = n % 1000;
        if r < 10 {
            push_char(s, '0');
            push_char(s, '0');
        } else if r < 100 {
            push_char(s, '0');
        }
        push_decimal(s, r);
        assert(final(s)@ =~= old(s)@ + spec_format_count(n as nat));
    }
}

/// `n` with its digits grouped by threes: `1,234,567`.
pub fn format_count(n: u64) -> (s: String)
    ensures
        s@ == spec_format_count(n as nat),
{
    let mut s = String::new();
    push_count(&mut s, n);
    assert(s@ =~= spec_format_count(n as nat));
    s
}

} // verus!
