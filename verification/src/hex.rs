//! Upper-case hexadecimal text of bytes and 16-bit values.

use vstd::prelude::*;

use crate::text::{push_char, push_str};

verus! {

pub open spec fn hex_digit(d: int) -> char {
    if d < 10 {
        (d + 48) as char
    } else {
        (d + 55) as char
    }
}

/// Two upper-case hex digits, as `{:02X}` prints a byte.
pub open spec fn hex2(b: u8) -> Seq<char> {
    seq![hex_digit(b as int / 16), hex_digit(b as int % 16)]
}

/// Four upper-case hex digits, as `{:04X}` prints a `u16`.
pub open spec fn hex4(v: u16) -> Seq<char> {
    seq![
        hex_digit(v as int / 4096),
        hex_digit((v as int / 256) % 16),
        hex_digit((v as int / 16) % 16),
        hex_digit(v as int % 16),
    ]
}

/// The items of a byte list in hex, separated by `, `.
pub open spec fn hex_items(bytes: Seq<u8>) -> Seq<char>
    decreases bytes.len(),
{
    if bytes.len() == 0 {
        seq![]
    } else if bytes.len() == 1 {
        hex2(bytes[0])
    } else {
        hex_items(bytes.drop_last()) + ", "@ + hex2(bytes.last())
    }
}

/// A byte list as `{:02X?}` prints it: `[03, 02, 0E]`.
pub open spec fn hex_list(bytes: Seq<u8>) -> Seq<char> {
    "["@ + hex_items(bytes) + "]"@
}

fn digit_char(d: u8) -> (c: char)
    requires
        d < 16,
    ensures
        c == hex_digit(d as int),
{
    if d < 10 {
        (d + 48) as char
    } else {
        (d + 55) as char
    }
}

pub fn push_hex2(s: &mut String, b: u8)
    ensures
        final(s)@ == old(s)@ + hex2(b),
{
    push_char(s, digit_char(b / 16));
    push_char(s, digit_char(b % 16));
    assert(final(s)@ =~= old(s)@ + hex2(b));
}

pub fn push_hex4(s: &mut String, v: u16)
    ensures
        final(s)@ == old(s)@ + hex4(v),
{
    push_char(s, digit_char((v / 4096) as u8));
    push_char(s, digit_char(((v / 256) % 16) as u8));
    push_char(s, digit_char(((v / 16) % 16) as u8));
    push_char(s, digit_char((v % 16) as u8));
    assert(final(s)@ =~= old(s)@ + hex4(v));
}

pub fn push_hex_list(s: &mut String, bytes: &[u8])
    ensures
        final(s)@ == old(s)@ + hex_list(bytes@),
{
    let ghost start = s@;
    push_str(s, "[");
    let mut i: usize = 0;
    while i < bytes.len()
        invariant
            i <= bytes@.len(),
            s@ == start + "["@ + hex_items(bytes@.subrange(0, i as int)),
        decreases bytes@.len() - i,
    {
        assert(bytes@.subrange(0, i + 1).drop_last() =~= bytes@.subrange(0, i as int));
        if i > 0 {
            push_str(s, ", ");
        }
        push_hex2(s, bytes[i]);
        proof {
            if i == 0 {
                assert(hex_items(bytes@.subrange(0, 1)) == hex2(bytes@[0]));
            }
        }
        assert(s@ =~= start + "["@ + hex_items(bytes@.subrange(0, i + 1)));
        i = i + 1;
    }
    assert(bytes@.subrange(0, bytes@.len() as int) =~= bytes@);
    push_str(s, "]");
    assert(s@ =~= start + hex_list(bytes@));
}

} // verus!
