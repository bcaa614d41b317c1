//! Shared text utilities: character-exact string comparison, decimal
//! rendering of integers, and the conversions from numeric code points to
//! characters that the key-code codec relies on.

use vstd::prelude::*;

verus! {

/// A Unicode scalar value: any code point except the surrogate range.
pub open spec fn is_unicode_scalar(v: int) -> bool {
    (0 <= v < 0xD800) || (0xE000 <= v <= 0x10FFFF)
}

/// Relies on char::from_u32: returns Some exactly when the value is a
/// Unicode scalar value (not a surrogate, at most 0x10FFFF), and the
/// character returned is that scalar.
#[verifier::external_body]
pub(crate) fn char_from_u32(u: u32) -> (r: Option<char>)
    ensures
        match r {
            Some(c) => is_unicode_scalar(u as int) && c as u32 == u,
            None => !is_unicode_scalar(u as int),
        },
{
    char::from_u32(u)
}

/// Relies on String::pop: removes and returns the last character, if any.
#[verifier::external_body]
pub(crate) fn pop_char(s: &mut String) -> (r: Option<char>)
    ensures
        match r {
            Some(c) => old(s)@.len() > 0 && final(s)@ == old(s)@.drop_last() && c == old(
                s,
            )@.last(),
            None => old(s)@.len() == 0 && final(s)@ == old(s)@,
        },
{
    s.pop()
}

/// Relies on String::push: appends the given character at the end.
#[verifier::external_body]
pub(crate) fn push_char(s: &mut String, c: char)
    ensures
        final(s)@ == old(s)@.push(c),
{
    s.push(c);
}

/// Whether two string slices hold the same characters.
pub fn str_eq(a: &str, b: &str) -> (r: bool)
    ensures
        r == (a@ == b@),
{
    let alen = a.unicode_len();
    let blen = b.unicode_len();
    if alen != blen {
        return false;
    }
    let mut i: usize = 0;
    while i < alen
        invariant
            0 <= i <= alen,
            alen == a@.len(),
            alen == b@.len(),
            forall|j: int| 0 <= j < i ==> a@[j] == b@[j],
        decreases alen - i,
    {
        if a.get_char(i) != b.get_char(i) {
            return false;
        }
        i = i + 1;
    }
    proof {
        assert(a@ =~= b@);
    }
    true
}

/// Whether `p` is a prefix of `s`, character for character.
pub open spec fn spec_has_prefix(s: Seq<char>, p: Seq<char>) -> bool {
    p.len() <= s.len() && s.subrange(0, p.len() as int) == p
}

pub fn str_prefix(s: &str, p: &str) -> (r: bool)
    ensures
        r == spec_has_prefix(s@, p@),
{
    let slen = s.unicode_len();
    let plen = p.unicode_len();
    if plen > slen {
        return false;
    }
    let mut i: usize = 0;
    while i < plen
        invariant
            0 <= i <= plen,
            plen <= slen,
            slen == s@.len(),
            plen == p@.len(),
            forall|j: int| 0 <= j < i ==> s@[j] == p@[j],
        decreases plen - i,
    {
        if s.get_char(i) != p.get_char(i) {
            proof {
                assert(s@.subrange(0, p@.len() as int)[i as int] == s@[i as int]);
            }
            return false;
        }
        i = i + 1;
    }
    proof {
        assert(s@.subrange(0, p@.len() as int) =~= p@);
    }
    true
}

/// The character for one decimal digit.
pub open spec fn digit_char(d: int) -> char {
    (('0' as int) + d) as char
}

/// The decimal rendering of a natural number, most significant digit first.
pub open spec fn dec_str(n: nat) -> Seq<char>
    decreases n,
{
    if n < 10 {
        seq![digit_char(n as int)]
    } else {
        dec_str(n / 10).push(digit_char((n % 10) as int))
    }
}

/// Renders a number in decimal.
pub fn u64_to_string(n: u64) -> (r: String)
    ensures
        r@ == dec_str(n as nat),
{
    let mut digits: Vec<char> = Vec::new();
    let mut m: u64 = n;
    if m == 0 {
        let c = digit_of(0);
        digits.push(c);
    }
    while m > 0
        invariant
            m >= 0,
            m > 0 ==> dec_str(n as nat) == dec_str(m as nat) + digits@.reverse(),
            m == 0 ==> dec_str(n as nat) == digits@.reverse(),
        decreases m,
    {
        let ghost old_m = m as nat;
        let ghost old_digits = digits@;
        let d = digit_of((m % 10) as u8);
        digits.push(d);
        m = m / 10;
        proof {
            assert(digits@.reverse() =~= seq![d] + old_digits.reverse());
            if old_m < 10 {
                assert(dec_str(old_m) == seq![digit_char(old_m as int)]);
                assert(dec_str(old_m) =~= seq![d] + Seq::<char>::empty().reverse());
                assert(dec_str(n as nat) =~= digits@.reverse());
            } else {
                assert(dec_str(old_m) == dec_str(old_m / 10).push(digit_char((old_m % 10) as int)));
                assert(dec_str(old_m) =~= dec_str(m as nat) + seq![d]);
                assert(dec_str(m as nat) + seq![d] + old_digits.reverse() =~= dec_str(m as nat)
                    + digits@.reverse());
            }
        }
    }
    let mut out = String::new();
    let count = digits.len();
    let mut j: usize = 0;
    while j < count
        invariant
            0 <= j <= count,
            count == digits@.len(),
            dec_str(n as nat) == digits@.reverse(),
            out@ == digits@.reverse().take(j as int),
        decreases count - j,
    {
        let c = digits[count - 1 - j];
        push_char(&mut out, c);
        proof {
            assert(digits@.reverse()[j as int] == digits@[count - 1 - j]);
            assert(out@ =~= digits@.reverse().take(j + 1));
        }
        j = j + 1;
    }
    proof {
        assert(out@ =~= digits@.reverse());
    }
    out
}

/// The code point of a character; every Unicode scalar fits an i32.
pub fn char_code(c: char) -> (r: i32)
    ensures
        r as int == c as int,
        0 <= r <= 0x10FFFF,
{
    proof {
        assert(0 <= c as int <= 0x10FFFF);
    }
    c as i32
}

/// The decimal rendering of a number, zero-padded to at least two digits.
pub open spec fn dec_str2(n: nat) -> Seq<char> {
    if n < 10 {
        seq!['0'] + dec_str(n)
    } else {
        dec_str(n)
    }
}

/// Renders a number in decimal, zero-padded to at least two digits.
pub fn u64_to_string2(n: u64) -> (r: String)
    ensures
        r@ == dec_str2(n as nat),
{
    if n < 10 {
        let mut s = String::from_str("0");
        let d = u64_to_string(n);
        s.append(d.as_str());
        proof {
            reveal_strlit("0");
            assert("0"@ =~= seq!['0']);
        }
        s
    } else {
        u64_to_string(n)
    }
}

/// The executable counterpart of `digit_char`.
fn digit_of(d: u8) -> (c: char)
    requires
        0 <= d < 10,
    ensures
        c == digit_char(d as int),
{
    (48u8 + d) as char
}

} // verus!
