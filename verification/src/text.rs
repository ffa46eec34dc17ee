//! Small helpers for building display text: appending single characters and
//! hexadecimal or decimal renderings of bytes to a `String`.

use vstd::prelude::*;

verus! {

/// Relies on `String::push`: appends the given character to the end of the
/// string.
#[verifier::external_body]
pub fn push_char(s: &mut String, c: char)
    ensures
        final(s)@ == old(s)@.push(c),
{
    s.push(c);
}

/// The upper-case hexadecimal digit for a value below sixteen.
pub open spec fn hex_digit(n: u8) -> char
    recommends
        n < 16,
{
    if n < 10 {
        ((n + 0x30) as u8) as char
    } else {
        ((n + 0x37) as u8) as char
    }
}

/// The two-digit upper-case hexadecimal rendering of a byte.
pub open spec fn hex_pair(b: u8) -> Seq<char> {
    seq![hex_digit(b / 16), hex_digit(b % 16)]
}

fn hex_digit_char(n: u8) -> (c: char)
    requires
        n < 16,
    ensures
        c == hex_digit(n),
{
    if n < 10 {
        (n + 0x30) as char
    } else {
        (n + 0x37) as char
    }
}

/// Appends the two-digit hexadecimal rendering of `b`.
pub fn push_hex(s: &mut String, b: u8)
    ensures
        final(s)@ == old(s)@ + hex_pair(b),
{
    let hi = b / 16;
    let lo = b % 16;
    push_char(s, hex_digit_char(hi));
    push_char(s, hex_digit_char(lo));
    proof {
        assert(s@ =~= old(s)@ + hex_pair(b));
    }
}

/// The decimal digit for a value below ten.
pub open spec fn dec_digit(d: u8) -> char
    recommends
        d < 10,
{
    ((d + 0x30) as u8) as char
}

/// The decimal rendering of a byte, without leading zeros.
pub open spec fn dec_u8(n: u8) -> Seq<char> {
    if n < 10 {
        seq![dec_digit(n)]
    } else if n < 100 {
        seq![dec_digit(n / 10), dec_digit(n % 10)]
    } else {
        seq![dec_digit(n / 100), dec_digit((n / 10) % 10), dec_digit(n % 10)]
    }
}

/// Appends the decimal rendering of `n`.
pub fn push_dec(s: &mut String, n: u8)
    ensures
        final(s)@ == old(s)@ + dec_u8(n),
{
    if n < 10 {
        push_char(s, dec_digit_char(n));
    } else if n < 100 {
        push_char(s, dec_digit_char(n / 10));
        push_char(s, dec_digit_char(n % 10));
    } else {
        push_char(s, dec_digit_char(n / 100));
        push_char(s, dec_digit_char((n / 10) % 10));
        push_char(s, dec_digit_char(n % 10));
    }
    proof {
        assert(s@ =~= old(s)@ + dec_u8(n));
    }
}

fn dec_digit_char(d: u8) -> (c: char)
    requires
        d < 10,
    ensures
        c == dec_digit(d),
{
    (d + 0x30) as char
}

} // verus!
