//! IPv4 addresses as four octets, with their dotted-decimal text form.

use vstd::prelude::*;

verus! {

/// An IPv4 address held as its four octets in network order.
#[derive(Debug, Clone, Copy, PartialEq, Eq, Structural)]
pub struct Ipv4Addr(pub u8, pub u8, pub u8, pub u8);

/// Decimal digit values (most significant first) of a byte, without leading zeros.
pub open spec fn dec_digits(v: u8) -> Seq<u8> {
    if v >= 100 {
        seq![v / 100, (v / 10) % 10, v % 10]
    } else if v >= 10 {
        seq![v / 10, v % 10]
    } else {
        seq![v]
    }
}

/// The ASCII character of a decimal digit value.
pub open spec fn digit_char(d: u8) -> char {
    ((d as int) + 48) as char
}

/// Decimal text of a byte.
pub open spec fn dec_text(v: u8) -> Seq<char> {
    dec_digits(v).map_values(|d: u8| digit_char(d))
}

/// Dotted-decimal text of an address, as `Display` for IPv4 prints it.
pub open spec fn dotted(octets: Seq<u8>) -> Seq<char> {
    dec_text(octets[0]) + seq!['.'] + dec_text(octets[1]) + seq!['.'] + dec_text(octets[2])
        + seq!['.'] + dec_text(octets[3])
}

impl Ipv4Addr {
    /// The four octets in network order.
    pub open spec fn octet_seq(self) -> Seq<u8> {
        seq![self.0, self.1, self.2, self.3]
    }

    pub fn new(a: u8, b: u8, c: u8, d: u8) -> (r: Ipv4Addr)
        ensures
            r == Ipv4Addr(a, b, c, d),
    {
        Ipv4Addr(a, b, c, d)
    }

    pub fn octets(&self) -> (r: [u8; 4])
        ensures
            r@ == self.octet_seq(),
    {
        let r = [self.0, self.1, self.2, self.3];
        assert(r@ =~= self.octet_seq());
        r
    }

    /// Whether this is `0.0.0.0`.
    pub open spec fn spec_is_unspecified(self) -> bool {
        self.0 == 0 && self.1 == 0 && self.2 == 0 && self.3 == 0
    }

    /// Whether this is in `127.0.0.0/8`.
    pub open spec fn spec_is_loopback(self) -> bool {
        self.0 == 127
    }

    /// Whether this is in `224.0.0.0/4`.
    pub open spec fn spec_is_multicast(self) -> bool {
        224 <= self.0 <= 239
    }

    /// Whether this is in `169.254.0.0/16`.
    pub open spec fn spec_is_link_local(self) -> bool {
        self.0 == 169 && self.1 == 254
    }

    pub fn is_unspecified(&self) -> (r: bool)
        ensures
            r == self.spec_is_unspecified(),
    {
        self.0 == 0 && self.1 == 0 && self.2 == 0 && self.3 == 0
    }

    pub fn is_loopback(&self) -> (r: bool)
        ensures
            r == self.spec_is_loopback(),
    {
        self.0 == 127
    }

    pub fn is_multicast(&self) -> (r: bool)
        ensures
            r == self.spec_is_multicast(),
    {
        224 <= self.0 && self.0 <= 239
    }

    pub fn is_link_local(&self) -> (r: bool)
        ensures
            r == self.spec_is_link_local(),
    {
        self.0 == 169 && self.1 == 254
    }

    /// Dotted-decimal text, such as `192.168.1.20`.
    pub fn to_string(&self) -> (r: String)
        ensures
            r@ == dotted(self.octet_seq()),
    {
        let mut out = String::new();
        push_decimal(&mut out, self.0);
        crate::text::push_char(&mut out, '.');
        push_decimal(&mut out, self.1);
        crate::text::push_char(&mut out, '.');
        push_decimal(&mut out, self.2);
        crate::text::push_char(&mut out, '.');
        push_decimal(&mut out, self.3);
        assert(out@ =~= dotted(self.octet_seq()));
        out
    }
}

/// The digit values of a byte, most significant first.
pub fn decimal_digits(v: u8) -> (r: Vec<u8>)
    ensures
        r@ == dec_digits(v),
{
    let mut r = Vec::new();
    if v >= 100 {
        r.push(v / 100);
        r.push((v / 10) % 10);
        r.push(v % 10);
    } else if v >= 10 {
        r.push(v / 10);
        r.push(v % 10);
    } else {
        r.push(v);
    }
    assert(r@ =~= dec_digits(v));
    r
}

pub fn digit_to_char(d: u8) -> (c: char)
    requires
        d < 10,
    ensures
        c == digit_char(d),
{
    ((d + 48) as char)
}

fn push_decimal(out: &mut String, v: u8)
    ensures
        final(out)@ == old(out)@ + dec_text(v),
{
    let digits = decimal_digits(v);
    let mut i: usize = 0;
    while i < digits.len()
        invariant
            digits@ == dec_digits(v),
            i <= digits@.len(),
            out@ == old(out)@ + dec_text(v).subrange(0, i as int),
        decreases digits@.len() - i,
    {
        let c = digit_to_char(digits[i]);
        crate::text::push_char(out, c);
        assert(dec_text(v).subrange(0, i + 1) =~= dec_text(v).subrange(0, i as int).push(c));
        i = i + 1;
    }
    assert(dec_text(v).subrange(0, digits@.len() as int) =~= dec_text(v));
}

} // verus!
