//! Durations written as hours, minutes and seconds.

use crate::adapters::push_char;
use vstd::prelude::*;

verus! {

/// The quotient of `a` by a positive `b`, rounded towards zero.
pub open spec fn trunc_div(a: int, b: int) -> int {
    if a >= 0 {
        a / b
    } else {
        -((-a) / b)
    }
}

/// What is left of `a` after `trunc_div`: it has the sign of `a`.
pub open spec fn trunc_rem(a: int, b: int) -> int {
    a - b * trunc_div(a, b)
}

/// The character of a decimal digit.
pub open spec fn digit_char(d: int) -> char {
    ((48 + d) as u8) as char
}

/// The decimal digits of `n`, without leading zeros.
pub open spec fn spec_decimal(n: nat) -> Seq<char>
    decreases n,
{
    if n < 10 {
        seq![digit_char(n as int)]
    } else {
        spec_decimal(n / 10).push(digit_char((n % 10) as int))
    }
}

/// The decimal form of `n`, with `-` before a negative number.
pub open spec fn spec_signed(n: int) -> Seq<char> {
    if n < 0 {
        seq!['-'] + spec_decimal((-n) as nat)
    } else {
        spec_decimal(n as nat)
    }
}

/// `s` filled up on the left with `0` to two characters.
pub open spec fn spec_pad2(s: Seq<char>) -> Seq<char> {
    if s.len() == 0 {
        seq!['0', '0']
    } else if s.len() == 1 {
        seq!['0'] + s
    } else {
        s
    }
}

/// `total` seconds as whole hours, then the minutes and the seconds that are
/// left, each at least two characters wide, with `:` between them.
pub open spec fn spec_hh_mm_ss(total: int) -> Seq<char> {
    let minutes = trunc_div(total, 60);
    spec_pad2(spec_signed(trunc_div(minutes, 60))) + seq![':'] + spec_pad2(
        spec_signed(trunc_rem(minutes, 60)),
    ) + seq![':'] + spec_pad2(spec_signed(trunc_rem(total, 60)))
}

/// A number of ten or more has at least two digits; any number has one.
pub proof fn lemma_decimal_len(n: nat)
    ensures
        spec_decimal(n).len() >= 1,
        n >= 10 ==> spec_decimal(n).len() >= 2,
    decreases n,
{
    if n >= 10 {
        lemma_decimal_len(n / 10);
    }
}

/// Adds the decimal digits of `n` to `out`.
pub fn push_decimal(out: &mut String, n: u64)
    ensures
        final(out)@ == old(out)@ + spec_decimal(n as nat),
    decreases n,
{
    if n >= 10 {
        push_decimal(out, n / 10);
    }
    let d = (n % 10) as u8;
    push_char(out, (48 + d) as char);
    proof {
        if n >= 10 {
            assert(final(out)@ =~= old(out)@ + spec_decimal(n as nat));
        } else {
            assert(final(out)@ =~= old(out)@ + spec_decimal(n as nat));
        }
    }
}

/// Adds `n` to `out`, at least two characters wide, filled up with `0`.
pub fn push_padded(out: &mut String, n: i64)
    ensures
        final(out)@ == old(out)@ + spec_pad2(spec_signed(n as int)),
{
    if n < 0 {
        let magnitude: u64 = ((-(n + 1)) as u64) + 1;
        push_char(out, '-');
        push_decimal(out, magnitude);
        proof {
            lemma_decimal_len(magnitude as nat);
            assert(final(out)@ =~= old(out)@ + spec_pad2(spec_signed(n as int)));
        }
    } else {
        if n < 10 {
            push_char(out, '0');
        }
        push_decimal(out, n as u64);
        proof {
            lemma_decimal_len(n as nat);
            assert(final(out)@ =~= old(out)@ + spec_pad2(spec_signed(n as int)));
        }
    }
}

/// A duration of `total_seconds` as `hh:mm:ss`: the whole hours, and the
/// minutes and seconds beyond them.
pub fn format_duration_hh_mm_ss(total_seconds: i64) -> (text: String)
    ensures
        text@ == spec_hh_mm_ss(total_seconds as int),
{
    let tot_mins = total_seconds / 60;
    let tot_hours = tot_mins / 60;
    let secs = total_seconds % 60;
    let mins = tot_mins % 60;
    assert(tot_mins == trunc_div(total_seconds as int, 60));
    assert(tot_hours == trunc_div(tot_mins as int, 60));
    assert(secs == trunc_rem(total_seconds as int, 60));
    assert(mins == trunc_rem(tot_mins as int, 60));
    let mut text = String::new();
    push_padded(&mut text, tot_hours);
    push_char(&mut text, ':');
    push_padded(&mut text, mins);
    push_char(&mut text, ':');
    push_padded(&mut text, secs);
    assert(text@ =~= spec_hh_mm_ss(total_seconds as int));
    text
}

} // verus!
