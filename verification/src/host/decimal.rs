//! Decimal text of unsigned integers, and reading it back.

use vstd::prelude::*;

verus! {

pub open spec fn digit_of(d: int) -> char {
    (d + 48) as char
}

/// Decimal text of `n` without leading zeros, as `u64`'s `Display` prints it.
pub open spec fn dec_u64(n: nat) -> Seq<char>
    decreases n,
{
    if n < 10 {
        seq![digit_of(n as int)]
    } else {
        dec_u64(n / 10) + seq![digit_of((n % 10) as int)]
    }
}

pub open spec fn is_digit(c: char) -> bool {
    '0' <= c && c <= '9'
}

/// Value of a string of decimal digits.
pub open spec fn digits_value(s: Seq<char>) -> nat
    decreases s.len(),
{
    if s.len() == 0 {
        0
    } else {
        digits_value(s.drop_last()) * 10 + (s.last() as nat - 48) as nat
    }
}

pub open spec fn all_digits(s: Seq<char>) -> bool {
    forall|i: int| 0 <= i < s.len() ==> is_digit(#[trigger] s[i])
}

/// What `str::parse::<u64>` accepts: an optional `+` then at least one
/// decimal digit, with a value that fits in 64 bits.
pub open spec fn parse_u64_spec(s: Seq<char>) -> Option<u64> {
    let body = if s.len() > 0 && s[0] == '+' {
        s.subrange(1, s.len() as int)
    } else {
        s
    };
    if body.len() > 0 && all_digits(body) && digits_value(body) <= u64::MAX {
        Some(digits_value(body) as u64)
    } else {
        None
    }
}

/// Decimal text of `n`.
pub fn u64_to_string(n: u64) -> (r: String)
    ensures
        r@ == dec_u64(n as nat),
{
    let mut digits: Vec<char> = Vec::new();
    let mut m = n;
    let ghost mut tail: Seq<char> = seq![];
    while m >= 10
        invariant
            dec_u64(n as nat) == dec_u64(m as nat) + tail,
            digits@ == tail.reverse(),
        decreases m,
    {
        let d = (m % 10) as u8;
        digits.push((d + 48) as char);
        proof {
            assert(dec_u64(m as nat) == dec_u64((m / 10) as nat) + seq![digit_of((m % 10) as int)]);
            assert(dec_u64(n as nat) =~= dec_u64((m / 10) as nat) + (seq![digit_of((m % 10) as int)] + tail));
            tail = seq![digit_of((m % 10) as int)] + tail;
            assert(digits@ =~= tail.reverse());
        }
        m = m / 10;
    }
    digits.push(((m as u8) + 48) as char);
    proof {
        assert(dec_u64(n as nat) =~= seq![digit_of(m as int)] + tail);
        tail = seq![digit_of(m as int)] + tail;
        assert(digits@ =~= tail.reverse());
    }
    assert(dec_u64(n as nat) == tail);
    let mut out = String::new();
    let mut i = digits.len();
    while i > 0
        invariant
            i <= digits@.len(),
            digits@ == tail.reverse(),
            out@ == tail.subrange(0, (digits@.len() - i) as int),
        decreases i,
    {
        i = i - 1;
        crate::text::push_char(&mut out, digits[i]);
        assert(tail.subrange(0, (digits@.len() - i) as int) =~= tail.subrange(0, (digits@.len() - i - 1) as int).push(
            digits@[i as int],
        ));
    }
    assert(tail.subrange(0, digits@.len() as int) =~= tail);
    out
}

proof fn lemma_dec_u64_digits(n: nat)
    ensures
        dec_u64(n).len() > 0,
        all_digits(dec_u64(n)),
        dec_u64(n)[0] != '0' || n == 0,
        digits_value(dec_u64(n)) == n,
    decreases n,
{
    if n >= 10 {
        lemma_dec_u64_digits(n / 10);
        let s = dec_u64(n);
        assert(s.drop_last() =~= dec_u64(n / 10));
        assert(s[0] == dec_u64(n / 10)[0]);
        let d = (n % 10) as int;
        assert(digit_of(d) as int == d + 48);
        assert(s.last() == digit_of(d));
        assert((s.last() as nat - 48) as nat == d);
        assert(digits_value(s) == digits_value(s.drop_last()) * 10 + (s.last() as nat - 48) as nat);
        assert(n == (n / 10) * 10 + n % 10);
        assert forall|i: int| 0 <= i < s.len() implies is_digit(#[trigger] s[i]) by {
            if i < s.len() - 1 {
                assert(s[i] == dec_u64(n / 10)[i]);
            }
        }
    } else {
        let s = dec_u64(n);
        assert(digit_of(n as int) as int == n + 48);
        assert(s.drop_last() =~= Seq::<char>::empty());
        assert(digits_value(s) == digits_value(s.drop_last()) * 10 + (s.last() as nat - 48) as nat);
    }
}

/// Printing a number and reading it back gives the number.
pub proof fn lemma_u64_text_roundtrip(n: u64)
    ensures
        parse_u64_spec(dec_u64(n as nat)) == Some(n),
{
    lemma_dec_u64_digits(n as nat);
    assert(dec_u64(n as nat)[0] != '+');
}

/// Reads a decimal number the way `str::parse::<u64>` does.
pub fn parse_u64(s: &str) -> (r: Option<u64>)
    ensures
        r == parse_u64_spec(s@),
{
    let c = crate::text::chars_of(s);
    let mut start: usize = 0;
    if c.len() > 0 && c[0] == '+' {
        start = 1;
    }
    let ghost body = if s@.len() > 0 && s@[0] == '+' {
        s@.subrange(1, s@.len() as int)
    } else {
        s@
    };
    assert(body =~= s@.subrange(start as int, s@.len() as int));
    if start >= c.len() {
        return None;
    }
    let mut value: u64 = 0;
    let mut i = start;
    while i < c.len()
        invariant
            c@ == s@,
            start <= i <= c@.len(),
            body == s@.subrange(start as int, s@.len() as int),
            body.len() > 0,
            parse_u64_spec(s@) == (if all_digits(body) && digits_value(body) <= u64::MAX {
                Some(digits_value(body) as u64)
            } else {
                None
            }),
            all_digits(s@.subrange(start as int, i as int)),
            value as nat == digits_value(s@.subrange(start as int, i as int)),
        decreases c@.len() - i,
    {
        let ch = c[i];
        let ghost prefix = s@.subrange(start as int, (i + 1) as int);
        assert(prefix.drop_last() =~= s@.subrange(start as int, i as int));
        if !('0' <= ch && ch <= '9') {
            assert(body[(i - start) as int] == ch);
            assert(!is_digit(body[(i - start) as int]));
            return None;
        }
        let d = (ch as u32 - 48) as u64;
        if value > (u64::MAX - d) / 10 {
            proof {
                assert(body.subrange(0, (i - start + 1) as int) =~= prefix);
                if all_digits(body) {
                    lemma_digits_value_grows(body, (i - start + 1) as int);
                    assert(d as nat == ch as nat - 48);
                    assert(digits_value(prefix) > u64::MAX) by (nonlinear_arith)
                        requires
                            digits_value(prefix) == value * 10 + d,
                            value > (u64::MAX - d) / 10,
                    ;
                }
            }
            return None;
        }
        value = value * 10 + d;
        assert(all_digits(prefix));
        i = i + 1;
    }
    assert(s@.subrange(start as int, c@.len() as int) =~= body);
    Some(value)
}

/// Reading more digits never makes the value smaller.
proof fn lemma_digits_value_grows(s: Seq<char>, k: int)
    requires
        0 <= k <= s.len(),
        all_digits(s),
    ensures
        digits_value(s.subrange(0, k)) <= digits_value(s),
    decreases s.len(),
{
    if k < s.len() {
        assert(s.drop_last() =~= s.subrange(0, s.len() - 1));
        assert(all_digits(s.drop_last()));
        lemma_digits_value_grows(s.drop_last(), k);
        assert(s.drop_last().subrange(0, k) =~= s.subrange(0, k));
    } else {
        assert(s.subrange(0, k) =~= s);
    }
}

} // verus!
