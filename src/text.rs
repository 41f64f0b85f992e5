//! Textual renderings of addresses and numbers, built character by character.
use vstd::prelude::*;

verus! {

/// The ASCII character of a decimal or hexadecimal digit value.
pub open spec fn digit_char(d: nat) -> char {
    if d < 10 {
        (('0' as u8) + d) as char
    } else {
        (('a' as u8) + (d - 10)) as char
    }
}

/// The shortest decimal rendering of `n`.
pub open spec fn dec_text(n: nat) -> Seq<char>
    decreases n,
{
    if n < 10 {
        seq![digit_char(n)]
    } else {
        dec_text(n / 10).push(digit_char(n % 10))
    }
}

/// Two lower-case hexadecimal digits of a byte.
pub open spec fn hex2_text(b: u8) -> Seq<char> {
    seq![digit_char((b / 16) as nat), digit_char((b % 16) as nat)]
}

/// Byte `i` (0 is the most significant) of a 32-bit address.
pub open spec fn octet(ip: u32, i: int) -> nat {
    let d: nat = if i == 0 {
        16777216
    } else if i == 1 {
        65536
    } else if i == 2 {
        256
    } else {
        1
    };
    ((ip as nat) / d) % 256
}

/// Dotted-quad rendering of an IPv4 address held as a big-endian integer.
pub open spec fn ip_text(ip: u32) -> Seq<char> {
    dec_text(octet(ip, 0)) + seq!['.'] + dec_text(octet(ip, 1)) + seq!['.'] + dec_text(
        octet(ip, 2),
    ) + seq!['.'] + dec_text(octet(ip, 3))
}

/// Relies on String::push: appends one character.
#[verifier::external_body]
pub(crate) fn push_char(s: &mut String, c: char)
    ensures
        final(s)@ == old(s)@.push(c),
{
    s.push(c)
}

pub fn digit(d: u64) -> (c: char)
    requires
        d < 16,
    ensures
        c == digit_char(d as nat),
{
    if d < 10 {
        ((('0' as u8) + (d as u8)) as char)
    } else {
        ((('a' as u8) + ((d - 10) as u8)) as char)
    }
}

/// Appends the decimal rendering of `n`.
pub fn push_dec(s: &mut String, n: u64)
    ensures
        final(s)@ == old(s)@ + dec_text(n as nat),
    decreases n,
{
    if n >= 10 {
        push_dec(s, n / 10);
        push_char(s, digit(n % 10));
        assert(final(s)@ =~= old(s)@ + dec_text(n as nat));
    } else {
        push_char(s, digit(n));
        assert(final(s)@ =~= old(s)@ + dec_text(n as nat));
    }
}

/// Appends two hexadecimal digits of `b`.
pub fn push_hex2(s: &mut String, b: u8)
    ensures
        final(s)@ == old(s)@ + hex2_text(b),
{
    push_char(s, digit((b / 16) as u64));
    push_char(s, digit((b % 16) as u64));
    assert(final(s)@ =~= old(s)@ + hex2_text(b));
}

/// Appends the dotted-quad rendering of `ip`.
pub fn push_ip(s: &mut String, ip: u32)
    ensures
        final(s)@ == old(s)@ + ip_text(ip),
{
    let ghost s0 = s@;
    push_dec(s, ((ip / 16777216) % 256) as u64);
    push_char(s, '.');
    push_dec(s, ((ip / 65536) % 256) as u64);
    push_char(s, '.');
    push_dec(s, ((ip / 256) % 256) as u64);
    push_char(s, '.');
    push_dec(s, (ip % 256) as u64);
    assert(s@ =~= s0 + ip_text(ip));
}

} // verus!
