//! Decimal text for natural numbers and for fixed-point quantities counted in
//! hundredths.

use vstd::prelude::*;

verus! {

/// `String::push` appends one character.
pub assume_specification[ String::push ](s: &mut String, ch: char)
    ensures
        final(s)@ == old(s)@.push(ch),
;

/// The character for the decimal digit `d`.
pub open spec fn digit(d: int) -> char
    recommends
        0 <= d <= 9,
{
    (48 + d) as char
}

/// The decimal numeral of `n`, without leading zeros.
pub open spec fn decimal(n: nat) -> Seq<char>
    decreases n,
{
    if n < 10 {
        seq![digit(n as int)]
    } else {
        decimal(n / 10).push(digit((n % 10) as int))
    }
}

/// The absolute value of `v`.
pub open spec fn magnitude(v: int) -> nat {
    if v < 0 {
        (-v) as nat
    } else {
        v as nat
    }
}

/// A minus sign for negative `v`, nothing otherwise.
pub open spec fn sign(v: int) -> Seq<char> {
    if v < 0 {
        seq!['-']
    } else {
        Seq::empty()
    }
}

/// `v` hundredths written with exactly two decimals: `8220` is `82.20`, `-5`
/// is `-0.05`.
pub open spec fn fixed(v: int) -> Seq<char> {
    let m = magnitude(v);
    sign(v) + decimal(m / 100) + seq!['.', digit((m / 10 % 10) as int), digit((m % 10) as int)]
}

/// `v` hundredths written with as few decimals as represent it exactly:
/// `61200` is `612`, `61250` is `612.5`, `61225` is `612.25`.
pub open spec fn shortest(v: int) -> Seq<char> {
    let m = magnitude(v);
    sign(v) + decimal(m / 100) + if m % 100 == 0 {
        Seq::empty()
    } else if m % 10 == 0 {
        seq!['.', digit((m / 10 % 10) as int)]
    } else {
        seq!['.', digit((m / 10 % 10) as int), digit((m % 10) as int)]
    }
}

/// The character of a single decimal digit.
fn digit_char(d: u8) -> (c: char)
    requires
        d <= 9,
    ensures
        c == digit(d as int),
{
    (48u8 + d) as char
}

/// Appends the decimal numeral of `n` to `out`.
pub fn push_decimal(out: &mut String, n: u64)
    ensures
        final(out)@ == old(out)@ + decimal(n as nat),
    decreases n,
{
    if n >= 10 {
        push_decimal(out, n / 10);
    }
    out.push(digit_char((n % 10) as u8));
}

/// The absolute value of `v` as an unsigned number.
fn magnitude_of(v: i64) -> (m: u64)
    ensures
        m == magnitude(v as int),
{
    if v < 0 {
        ((-(v + 1)) as u64) + 1
    } else {
        v as u64
    }
}

/// Appends `v` hundredths with exactly two decimals to `out`.
pub fn push_fixed(out: &mut String, v: i64)
    ensures
        final(out)@ == old(out)@ + fixed(v as int),
{
    let m: u64 = magnitude_of(v);
    if v < 0 {
        out.push('-');
    }
    push_decimal(out, m / 100);
    out.push('.');
    out.push(digit_char((m / 10 % 10) as u8));
    out.push(digit_char((m % 10) as u8));
}

/// Appends `v` hundredths with as few decimals as represent it exactly to
/// `out`.
pub fn push_shortest(out: &mut String, v: i64)
    ensures
        final(out)@ == old(out)@ + shortest(v as int),
{
    let m: u64 = magnitude_of(v);
    if v < 0 {
        out.push('-');
    }
    push_decimal(out, m / 100);
    if m % 100 != 0 {
        out.push('.');
        out.push(digit_char((m / 10 % 10) as u8));
        if m % 10 != 0 {
            out.push(digit_char((m % 10) as u8));
        }
    }
}

} // verus!
