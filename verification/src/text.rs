//! Numbers written out as text.

use vstd::prelude::*;
use vstd::string::StringExecFns;

use crate::outside::grouped_text;
use crate::ratio::{Frac, Ratio};

verus! {

/// The character of the decimal digit `d`.
pub open spec fn digit_char(d: int) -> char {
    ((d + 48) as u8) as char
}

/// A natural number in base ten, without leading zeros.
pub open spec fn decimal(n: nat) -> Seq<char>
    decreases n,
{
    if n < 10 {
        seq![digit_char(n as int)]
    } else {
        decimal(n / 10).push(digit_char((n % 10) as int))
    }
}

/// A natural number in base ten with a comma before every group of three
/// digits, as in `1,234,567`.
pub open spec fn grouped(n: nat) -> Seq<char>
    decreases n,
{
    if n < 1000 {
        decimal(n)
    } else {
        grouped(n / 1000) + seq![
            ',',
            digit_char((n % 1000 / 100) as int),
            digit_char((n % 100 / 10) as int),
            digit_char((n % 10) as int),
        ]
    }
}

/// A whole number with its sign in front, `+` for zero and above.
pub open spec fn signed(n: int) -> Seq<char> {
    if n < 0 {
        seq!['-'] + decimal((-n) as nat)
    } else {
        seq!['+'] + decimal(n as nat)
    }
}

/// A number of hundredths with two digits behind the point, as in `12.05`;
/// a `-` in front where it is below zero.
pub open spec fn hundredths(n: int) -> Seq<char> {
    if n < 0 {
        seq!['-'] + decimal(((-n) / 100) as nat) + seq![
            '.',
            digit_char((-n) % 100 / 10),
            digit_char((-n) % 10),
        ]
    } else {
        decimal((n / 100) as nat) + seq!['.', digit_char(n % 100 / 10), digit_char(n % 10)]
    }
}

/// A change in percent, rounded to a whole number, with its sign, as in
/// `+12`.
pub open spec fn change_text(change: Frac) -> Seq<char> {
    signed(change.rounded())
}

/// A rate in percent, rounded to two digits behind the point.
pub open spec fn rate_text(rate: Frac) -> Seq<char> {
    hundredths(rate.scaled(100).rounded())
}

/// The character of a decimal digit.
pub fn digit(d: u8) -> (c: char)
    requires
        d < 10,
    ensures
        c == digit_char(d as int),
{
    (d + 48) as char
}

/// Writes a natural number in base ten at the end of a text.
pub fn push_decimal(text: &mut String, n: u128)
    ensures
        final(text)@ == old(text)@ + decimal(n as nat),
    decreases n,
{
    if n >= 10 {
        push_decimal(text, n / 10);
    }
    text.push(digit((n % 10) as u8));
}

/// Writes a whole number with its sign at the end of a text.
pub fn push_signed(text: &mut String, n: i128)
    requires
        n > i128::MIN,
    ensures
        final(text)@ == old(text)@ + signed(n as int),
{
    if n < 0 {
        text.push('-');
        push_decimal(text, (-n) as u128);
    } else {
        text.push('+');
        push_decimal(text, n as u128);
    }
}

/// Writes a number of hundredths, with two digits behind the point, at the
/// end of a text.
pub fn push_hundredths(text: &mut String, n: i128)
    requires
        n > i128::MIN,
    ensures
        final(text)@ == old(text)@ + hundredths(n as int),
{
    let size: u128 = if n < 0 {
        text.push('-');
        (-n) as u128
    } else {
        n as u128
    };
    push_decimal(text, size / 100);
    text.push('.');
    text.push(digit((size % 100 / 10) as u8));
    text.push(digit((size % 10) as u8));
}

/// Writes a change in percent, rounded to a whole number, at the end of a
/// text.
pub fn push_change(text: &mut String, change: &Ratio)
    requires
        change.wf(),
    ensures
        final(text)@ == old(text)@ + change_text(change@),
{
    let rounded = change.rounded_scaled(1);
    assert(change@.scaled(1) == change@) by {
        assert(change@.num * 1 == change@.num);
    }
    push_signed(text, rounded);
}

/// Writes a rate in percent, rounded to two digits behind the point, at
/// the end of a text.
pub fn push_rate(text: &mut String, rate: &Ratio)
    requires
        rate.wf(),
    ensures
        final(text)@ == old(text)@ + rate_text(rate@),
{
    push_hundredths(text, rate.rounded_scaled(100));
}

/// Writes a number, its digits in groups of three, at the end of a text.
pub fn push_grouped(text: &mut String, n: u64)
    ensures
        final(text)@ == old(text)@ + grouped(n as nat),
{
    let digits = grouped_text(n);
    text.append(digits.as_str());
}

} // verus!
