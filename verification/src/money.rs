//! Amounts of money in minor units, a hundred to the unit, and their text.

use vstd::prelude::*;
use crate::text::{decimal, fixed_decimal, push_char, push_decimal, push_fixed_decimal};

verus! {

/// The decimal digits of `n` with a comma before every group of three,
/// counted from the right: `1,234,567`.
pub open spec fn grouped(n: nat) -> Seq<char>
    decreases n,
{
    if n < 1000 {
        decimal(n)
    } else {
        grouped(n / 1000).push(',') + fixed_decimal(n % 1000, 3)
    }
}

/// The size of an amount without its sign.
pub open spec fn magnitude(minor: int) -> nat {
    if minor < 0 {
        (-minor) as nat
    } else {
        minor as nat
    }
}

/// The sign that is written before a number: a hyphen for a negative one.
pub open spec fn sign_text(minor: int) -> Seq<char> {
    if minor < 0 {
        seq!['-']
    } else {
        Seq::empty()
    }
}

/// An amount as it stands in a posting: a dollar sign, a hyphen if it is
/// negative, the units in groups of three digits, a point and two digits
/// of minor units. `$-1,234.50`.
pub open spec fn amount_text(minor: int) -> Seq<char> {
    seq!['$'] + sign_text(minor) + grouped(magnitude(minor) / 100).push('.') + fixed_decimal(
        magnitude(minor) % 100,
        2,
    )
}

/// An amount as a plain decimal number: no grouping, and of the minor
/// units only the digits that are needed. `-200`, `12.5`, `0.07`.
pub open spec fn plain_amount_text(minor: int) -> Seq<char> {
    let units = decimal(magnitude(minor) / 100);
    let rest = magnitude(minor) % 100;
    sign_text(minor) + if rest == 0 {
        units
    } else if rest % 10 == 0 {
        units.push('.') + fixed_decimal(rest / 10, 1)
    } else {
        units.push('.') + fixed_decimal(rest, 2)
    }
}

/// An amount as a decimal number with two digits behind the point and no
/// grouping. `-200.00`, `0.07`.
pub open spec fn two_decimal_text(minor: int) -> Seq<char> {
    sign_text(minor) + decimal(magnitude(minor) / 100).push('.') + fixed_decimal(
        magnitude(minor) % 100,
        2,
    )
}

/// Appends the digits of `n` in groups of three to `out`.
pub fn push_grouped(out: &mut String, n: u128)
    ensures
        final(out)@ == old(out)@ + grouped(n as nat),
    decreases n,
{
    if n < 1000 {
        push_decimal(out, n);
    } else {
        push_grouped(out, n / 1000);
        push_char(out, ',');
        push_fixed_decimal(out, n % 1000, 3);
        assert(out@ =~= old(out)@ + grouped(n as nat));
    }
}

/// The size of `minor` without its sign.
pub fn magnitude_of(minor: i128) -> (size: u128)
    ensures
        size == magnitude(minor as int),
{
    if minor == i128::MIN {
        0x8000_0000_0000_0000_0000_0000_0000_0000u128
    } else if minor < 0 {
        (-minor) as u128
    } else {
        minor as u128
    }
}

/// Appends the posting text of an amount to `out`.
pub fn push_amount(out: &mut String, minor: i64)
    ensures
        final(out)@ == old(out)@ + amount_text(minor as int),
{
    let size = magnitude_of(minor as i128);
    push_char(out, '$');
    if minor < 0 {
        push_char(out, '-');
    }
    push_grouped(out, size / 100);
    push_char(out, '.');
    push_fixed_decimal(out, size % 100, 2);
    assert(out@ =~= old(out)@ + amount_text(minor as int));
}

/// The posting text of an amount.
pub fn format_amount(minor: i64) -> (text: String)
    ensures
        text@ == amount_text(minor as int),
{
    let mut out = String::new();
    push_amount(&mut out, minor);
    assert(out@ =~= amount_text(minor as int));
    out
}

/// The posting text of `minor` with its sign reversed.
pub fn format_negated_amount(minor: i64) -> (text: String)
    ensures
        text@ == amount_text(-(minor as int)),
{
    let mut out = String::new();
    let size = magnitude_of(minor as i128);
    push_char(&mut out, '$');
    if minor > 0 {
        push_char(&mut out, '-');
    }
    push_grouped(&mut out, size / 100);
    push_char(&mut out, '.');
    push_fixed_decimal(&mut out, size % 100, 2);
    assert(out@ =~= amount_text(-(minor as int)));
    out
}

/// Appends an amount as a plain decimal number to `out`.
pub fn push_plain_amount(out: &mut String, minor: i64)
    ensures
        final(out)@ == old(out)@ + plain_amount_text(minor as int),
{
    let size = magnitude_of(minor as i128);
    if minor < 0 {
        push_char(out, '-');
    }
    push_decimal(out, size / 100);
    let rest = size % 100;
    if rest != 0 {
        push_char(out, '.');
        if rest % 10 == 0 {
            push_fixed_decimal(out, rest / 10, 1);
        } else {
            push_fixed_decimal(out, rest, 2);
        }
    }
    assert(out@ =~= old(out)@ + plain_amount_text(minor as int));
}

/// Appends an amount as a decimal number with two digits behind the
/// point to `out`.
pub fn push_two_decimal(out: &mut String, minor: i128)
    ensures
        final(out)@ == old(out)@ + two_decimal_text(minor as int),
{
    let size = magnitude_of(minor);
    if minor < 0 {
        push_char(out, '-');
    }
    push_decimal(out, size / 100);
    push_char(out, '.');
    push_fixed_decimal(out, size % 100, 2);
    assert(out@ =~= old(out)@ + two_decimal_text(minor as int));
}

} // verus!
