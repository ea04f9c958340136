//! Small string helpers: building text one character at a time and comparing it.

use vstd::prelude::*;

verus! {

/// `String::push`: appends one character.
#[verifier::external_body]
pub(crate) fn push_char(s: &mut String, c: char)
    ensures
        final(s)@ == old(s)@.push(c),
{
    s.push(c)
}

/// Appends a string slice.
pub fn push_str(s: &mut String, t: &str)
    ensures
        final(s)@ == old(s)@ + t@,
{
    s.append(t)
}

/// An owned copy of a string slice.
pub fn string_of(t: &str) -> (r: String)
    ensures
        r@ == t@,
{
    let mut s = String::new();
    push_str(&mut s, t);
    s
}

/// The characters of a string slice, in order.
pub fn chars_of(t: &str) -> (r: Vec<char>)
    ensures
        r@ == t@,
{
    let n = t.unicode_len();
    let mut r = Vec::new();
    let mut i: usize = 0;
    while i < n
        invariant
            n == t@.len(),
            i <= n,
            r@ == t@.subrange(0, i as int),
        decreases n - i,
    {
        r.push(t.get_char(i));
        assert(t@.subrange(0, i + 1) =~= t@.subrange(0, i as int).push(t@[i as int]));
        i = i + 1;
    }
    assert(t@.subrange(0, n as int) =~= t@);
    r
}

/// Equality of two string slices.
pub fn str_eq(a: &str, b: &str) -> (r: bool)
    ensures
        r == (a@ == b@),
{
    let ca = chars_of(a);
    let cb = chars_of(b);
    if ca.len() != cb.len() {
        return false;
    }
    let mut i: usize = 0;
    while i < ca.len()
        invariant
            ca@ == a@,
            cb@ == b@,
            ca@.len() == cb@.len(),
            i <= ca@.len(),
            forall|j: int| 0 <= j < i ==> ca@[j] == cb@[j],
        decreases ca@.len() - i,
    {
        if ca[i] != cb[i] {
            return false;
        }
        i = i + 1;
    }
    assert(a@ =~= b@);
    true
}

/// `pat` occurs in `t` starting at `i`.
pub open spec fn occurs_at(t: Seq<char>, pat: Seq<char>, i: int) -> bool {
    0 <= i && i + pat.len() <= t.len() && t.subrange(i, i + pat.len()) == pat
}

/// `t` contains `pat` (the empty pattern is contained everywhere).
pub open spec fn contains_text(t: Seq<char>, pat: Seq<char>) -> bool {
    exists|i: int| occurs_at(t, pat, i)
}

/// Whether `t` holds `pat` at position `i`.
pub fn matches_at(t: &Vec<char>, pat: &Vec<char>, i: usize) -> (r: bool)
    ensures
        r == occurs_at(t@, pat@, i as int),
{
    if i > t.len() || pat.len() > t.len() - i {
        return false;
    }
    let mut k: usize = 0;
    let tlen = t.len();
    while k < pat.len()
        invariant
            tlen == t@.len(),
            i + pat@.len() <= t@.len(),
            k <= pat@.len(),
            forall|j: int| 0 <= j < k ==> t@[i + j] == pat@[j],
        decreases pat@.len() - k,
    {
        if t[i + k] != pat[k] {
            assert(t@.subrange(i as int, i + pat@.len())[k as int] != pat@[k as int]);
            return false;
        }
        k = k + 1;
    }
    assert(t@.subrange(i as int, i + pat@.len()) =~= pat@);
    true
}

/// Whether the characters `t` contain `pat`.
pub fn contains_chars(t: &Vec<char>, pat: &Vec<char>) -> (r: bool)
    ensures
        r == contains_text(t@, pat@),
{
    let n = t.len();
    let mut i: usize = 0;
    loop
        invariant
            n == t@.len(),
            i <= n,
            forall|j: int| 0 <= j < i ==> !occurs_at(t@, pat@, j),
        decreases n - i,
    {
        if matches_at(t, pat, i) {
            return true;
        }
        if i == n {
            assert forall|j: int| !occurs_at(t@, pat@, j) by {
                if 0 <= j && j < i {
                }
            }
            return false;
        }
        i = i + 1;
    }
}

/// Whether the string slice `t` contains the string slice `pat`.
pub fn str_contains(t: &str, pat: &str) -> (r: bool)
    ensures
        r == contains_text(t@, pat@),
{
    let tc = chars_of(t);
    let pc = chars_of(pat);
    contains_chars(&tc, &pc)
}

/// `str::replace` for a non-empty pattern: every non-overlapping occurrence of
/// `pat`, scanning left to right, is replaced by `with`.
pub open spec fn replace_all(t: Seq<char>, pat: Seq<char>, with: Seq<char>) -> Seq<char>
    decreases t.len(),
{
    if t.len() == 0 {
        seq![]
    } else if pat.len() > 0 && pat.len() <= t.len() && t.subrange(0, pat.len() as int) == pat {
        with + replace_all(t.subrange(pat.len() as int, t.len() as int), pat, with)
    } else {
        seq![t[0]] + replace_all(t.subrange(1, t.len() as int), pat, with)
    }
}

/// Replaces every occurrence of `pat` in `t` by `with`.
pub fn replace_str(t: &str, pat: &str, with: &str) -> (r: String)
    requires
        pat@.len() > 0,
    ensures
        r@ == replace_all(t@, pat@, with@),
{
    let tc = chars_of(t);
    let pc = chars_of(pat);
    let mut out = String::new();
    let mut i: usize = 0;
    assert(t@.subrange(0, t@.len() as int) =~= t@);
    while i < tc.len()
        invariant
            tc@ == t@,
            pc@ == pat@,
            pat@.len() > 0,
            i <= tc@.len(),
            out@ + replace_all(t@.subrange(i as int, t@.len() as int), pat@, with@) == replace_all(t@, pat@, with@),
        decreases tc@.len() - i,
    {
        let ghost rest = t@.subrange(i as int, t@.len() as int);
        if matches_at(&tc, &pc, i) {
            assert(rest.subrange(0, pat@.len() as int) =~= t@.subrange(i as int, i + pat@.len()));
            assert(rest.subrange(pat@.len() as int, rest.len() as int) =~= t@.subrange(i + pat@.len(), t@.len() as int));
            push_str(&mut out, with);
            i = i + pc.len();
        } else {
            proof {
                if pat@.len() <= rest.len() {
                    assert(rest.subrange(0, pat@.len() as int) =~= t@.subrange(i as int, i + pat@.len()));
                }
            }
            assert(rest.subrange(1, rest.len() as int) =~= t@.subrange(i + 1, t@.len() as int));
            push_char(&mut out, tc[i]);
            i = i + 1;
        }
    }
    assert(t@.subrange(i as int, t@.len() as int) =~= Seq::<char>::empty());
    out
}

/// ASCII upper-case letters folded to lower case; every other character kept.
pub open spec fn ascii_lower(c: char) -> char {
    if 'A' <= c && c <= 'Z' {
        ((c as int) + 32) as char
    } else {
        c
    }
}

/// ASCII lower-casing of one character.
pub fn lower_char(c: char) -> (r: char)
    ensures
        r == ascii_lower(c),
{
    if 'A' <= c && c <= 'Z' {
        let code: u8 = c as u8;
        let lowered: u8 = code + 32;
        lowered as char
    } else {
        c
    }
}

/// `str::to_ascii_lowercase`.
pub fn to_ascii_lowercase(t: &str) -> (r: String)
    ensures
        r@ == t@.map_values(|c: char| ascii_lower(c)),
{
    let c = chars_of(t);
    let mut s = String::new();
    let mut i: usize = 0;
    while i < c.len()
        invariant
            c@ == t@,
            i <= c@.len(),
            s@ == t@.subrange(0, i as int).map_values(|c: char| ascii_lower(c)),
        decreases c@.len() - i,
    {
        push_char(&mut s, lower_char(c[i]));
        assert(t@.subrange(0, i + 1).map_values(|c: char| ascii_lower(c)) =~= t@.subrange(0, i as int).map_values(
            |c: char| ascii_lower(c),
        ).push(ascii_lower(c@[i as int])));
        i = i + 1;
    }
    assert(t@.subrange(0, c@.len() as int) =~= t@);
    s
}

/// `char::is_whitespace`: the Unicode `White_Space` characters.
pub open spec fn is_whitespace(c: char) -> bool {
    ||| ('\u{9}' <= c && c <= '\u{d}')
    ||| c == ' '
    ||| c == '\u{85}'
    ||| c == '\u{a0}'
    ||| c == '\u{1680}'
    ||| ('\u{2000}' <= c && c <= '\u{200a}')
    ||| c == '\u{2028}'
    ||| c == '\u{2029}'
    ||| c == '\u{202f}'
    ||| c == '\u{205f}'
    ||| c == '\u{3000}'
}

pub fn char_is_whitespace(c: char) -> (r: bool)
    ensures
        r == is_whitespace(c),
{
    ('\u{9}' <= c && c <= '\u{d}') || c == ' ' || c == '\u{85}' || c == '\u{a0}' || c == '\u{1680}' || (
    '\u{2000}' <= c && c <= '\u{200a}') || c == '\u{2028}' || c == '\u{2029}' || c == '\u{202f}' || c
        == '\u{205f}' || c == '\u{3000}'
}

/// Index of the first non-whitespace character (or the length).
pub open spec fn trim_start_index(t: Seq<char>) -> int {
    if exists|i: int| 0 <= i < t.len() && !is_whitespace(#[trigger] t[i]) {
        choose|i: int|
            0 <= i < t.len() && !is_whitespace(#[trigger] t[i]) && forall|j: int|
                0 <= j < i ==> is_whitespace(#[trigger] t[j])
    } else {
        t.len() as int
    }
}

/// `str::trim`: the text without leading and trailing whitespace.
pub open spec fn trim_spec(t: Seq<char>) -> Seq<char> {
    let a = trim_start_index(t);
    if a >= t.len() {
        seq![]
    } else {
        let b = choose|b: int|
            a < b <= t.len() && !is_whitespace(#[trigger] t[b - 1]) && forall|j: int|
                b <= j < t.len() ==> is_whitespace(#[trigger] t[j]);
        t.subrange(a, b)
    }
}

/// Leading and trailing whitespace removed.
pub fn trim(t: &str) -> (r: String)
    ensures
        r@ == trim_spec(t@),
{
    let c = chars_of(t);
    let n = c.len();
    let mut a: usize = 0;
    while a < n && char_is_whitespace(c[a])
        invariant
            c@ == t@,
            n == c@.len(),
            a <= n,
            forall|j: int| 0 <= j < a ==> is_whitespace(#[trigger] t@[j]),
        decreases n - a,
    {
        a = a + 1;
    }
    if a == n {
        assert(!(exists|i: int| 0 <= i < t@.len() && !is_whitespace(#[trigger] t@[i])));
        return String::new();
    }
    assert(trim_start_index(t@) == a as int) by {
        assert(0 <= a < t@.len() && !is_whitespace(t@[a as int]));
        let i = trim_start_index(t@);
        assert(0 <= i < t@.len() && !is_whitespace(t@[i]) && forall|j: int| 0 <= j < i ==> is_whitespace(#[trigger] t@[j]));
        if i < a {
            assert(is_whitespace(t@[i]));
        }
        if a < i {
            assert(is_whitespace(t@[a as int]));
        }
    }
    let mut b: usize = n;
    while b > a && char_is_whitespace(c[b - 1])
        invariant
            c@ == t@,
            n == c@.len(),
            a < b <= n,
            !is_whitespace(t@[a as int]),
            forall|j: int| b <= j < n ==> is_whitespace(#[trigger] t@[j]),
        decreases b,
    {
        b = b - 1;
    }
    assert(!is_whitespace(t@[b - 1]));
    let ghost want = trim_spec(t@);
    proof {
        let bb = choose|bb: int|
            a < bb <= t@.len() && !is_whitespace(#[trigger] t@[bb - 1]) && forall|j: int|
                bb <= j < t@.len() ==> is_whitespace(#[trigger] t@[j]);
        assert(a < b as int <= t@.len() && !is_whitespace(t@[b - 1]) && forall|j: int|
            b <= j < t@.len() ==> is_whitespace(#[trigger] t@[j]));
        if bb < b {
            assert(is_whitespace(t@[b - 1]));
        }
        if b < bb {
            assert(is_whitespace(t@[bb - 1]));
        }
        assert(want == t@.subrange(a as int, b as int));
    }
    let mut s = String::new();
    let mut k = a;
    while k < b
        invariant
            c@ == t@,
            a <= k <= b,
            b <= c@.len(),
            s@ == t@.subrange(a as int, k as int),
        decreases b - k,
    {
        push_char(&mut s, c[k]);
        assert(t@.subrange(a as int, k + 1) =~= t@.subrange(a as int, k as int).push(t@[k as int]));
        k = k + 1;
    }
    s
}

} // verus!
