//! Clock-style rendering of a number of whole seconds.
use vstd::prelude::*;

use crate::text::{append_chars, string_from_chars};

verus! {

/// The character of a decimal digit.
pub open spec fn digit_char(d: nat) -> char {
    ((48 + d) as u8) as char
}

/// The decimal digits of `n`, most significant first, without leading zeros.
pub open spec fn decimal_digits(n: nat) -> Seq<char>
    decreases n,
{
    if n < 10 {
        seq![digit_char(n)]
    } else {
        decimal_digits(n / 10).push(digit_char(n % 10))
    }
}

/// `n` written with at least two digits (`{:02}`).
pub open spec fn pad2(n: nat) -> Seq<char> {
    if n < 10 {
        seq!['0', digit_char(n)]
    } else {
        decimal_digits(n)
    }
}

/// "hh:mm:ss" when there is at least one whole hour, else "mm:ss"; each field has at
/// least two digits and the hours may have more.
pub open spec fn clock_text(secs: nat) -> Seq<char> {
    let hours = secs / 3600;
    let minutes = (secs % 3600) / 60;
    let seconds = secs % 60;
    if hours > 0 {
        pad2(hours) + seq![':'] + pad2(minutes) + seq![':'] + pad2(seconds)
    } else {
        pad2(minutes) + seq![':'] + pad2(seconds)
    }
}

fn digit(d: u32) -> (c: char)
    requires
        d < 10,
    ensures
        c == digit_char(d as nat),
{
    let b: u8 = 48u8 + (d as u8);
    b as char
}

/// The decimal digits of `n`.
pub fn decimal(n: u32) -> (r: Vec<char>)
    ensures
        r@ == decimal_digits(n as nat),
    decreases n,
{
    if n < 10 {
        let mut v: Vec<char> = Vec::new();
        v.push(digit(n));
        assert(v@ =~= seq![digit_char(n as nat)]);
        v
    } else {
        let mut v = decimal(n / 10);
        v.push(digit(n % 10));
        v
    }
}

fn padded(n: u32) -> (r: Vec<char>)
    ensures
        r@ == pad2(n as nat),
{
    if n < 10 {
        let mut v: Vec<char> = Vec::new();
        v.push('0');
        v.push(digit(n));
        assert(v@ =~= seq!['0', digit_char(n as nat)]);
        v
    } else {
        decimal(n)
    }
}

/// Renders a number of whole seconds as "mm:ss", or "hh:mm:ss" from one hour on.
pub fn format_clock(secs: u32) -> (r: String)
    ensures
        r@ == clock_text(secs as nat),
{
    let hours = secs / 3600;
    let minutes = (secs % 3600) / 60;
    let seconds = secs % 60;
    let mut v: Vec<char> = Vec::new();
    if hours > 0 {
        append_chars(&mut v, &padded(hours));
        v.push(':');
    }
    append_chars(&mut v, &padded(minutes));
    v.push(':');
    append_chars(&mut v, &padded(seconds));
    assert(v@ =~= clock_text(secs as nat));
    string_from_chars(&v)
}

} // verus!
