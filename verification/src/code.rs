//! Short codes: natural numbers written in base 62 with the digits
//! `0-9`, `a-z`, `A-Z`.
use vstd::prelude::*;

use crate::text::push_char;

verus! {

/// The character for the digit `d` (for `d < 62`): `0-9`, then `a-z`, then `A-Z`.
pub open spec fn digit_char(d: nat) -> char {
    if d < 10 {
        (48 + d) as char
    } else if d < 36 {
        (97 + (d - 10)) as char
    } else {
        (65 + (d - 36)) as char
    }
}

/// The digit that a character of the alphabet stands for; `-1` for any other character.
pub open spec fn digit_value(c: char) -> int {
    if '0' <= c && c <= '9' {
        c as int - 48
    } else if 'a' <= c && c <= 'z' {
        c as int - 97 + 10
    } else if 'A' <= c && c <= 'Z' {
        c as int - 65 + 36
    } else {
        -1
    }
}

/// Whether `c` is one of the 62 characters of the alphabet.
pub open spec fn is_code_char(c: char) -> bool {
    0 <= digit_value(c)
}

/// `n` written in base 62, most significant digit first, without leading zeros
/// (zero itself is the single digit `0`).
pub open spec fn spec_encode(n: nat) -> Seq<char>
    decreases n,
{
    if n < 62 {
        seq![digit_char(n)]
    } else {
        spec_encode(n / 62).push(digit_char(n % 62))
    }
}

/// The number that a string of base-62 digits stands for.
pub open spec fn spec_decode(s: Seq<char>) -> int
    decreases s.len(),
{
    if s.len() == 0 {
        0
    } else {
        spec_decode(s.drop_last()) * 62 + digit_value(s.last())
    }
}

proof fn lemma_digit_roundtrip(d: nat)
    requires
        d < 62,
    ensures
        digit_value(digit_char(d)) == d,
        is_code_char(digit_char(d)),
        d != 0 ==> digit_char(d) != '0',
{
}

/// Decoding a short code gives back the number it was made from.
pub proof fn lemma_decode_encode(n: nat)
    ensures
        spec_decode(spec_encode(n)) == n,
    decreases n,
{
    lemma_digit_roundtrip(n % 62);
    let e = spec_encode(n);
    if n < 62 {
        assert(e.drop_last() =~= Seq::<char>::empty());
        assert(spec_decode(e.drop_last()) == 0);
    } else {
        lemma_decode_encode(n / 62);
        assert(e.drop_last() =~= spec_encode(n / 62));
        assert(e.last() == digit_char(n % 62));
    }
}

/// Distinct numbers get distinct short codes.
pub proof fn lemma_encode_injective(a: nat, b: nat)
    ensures
        spec_encode(a) == spec_encode(b) ==> a == b,
{
    lemma_decode_encode(a);
    lemma_decode_encode(b);
}

/// A short code is non-empty, is made of the 62 alphabet characters only, and
/// starts with `0` only when it is the code of zero (no leading zeros).
pub proof fn lemma_encode_well_formed(n: nat)
    ensures
        spec_encode(n).len() >= 1,
        forall|i: int| 0 <= i < spec_encode(n).len() ==> is_code_char(#[trigger] spec_encode(n)[i]),
        spec_encode(n)[0] == '0' <==> n == 0,
    decreases n,
{
    lemma_digit_roundtrip(n % 62);
    if n < 62 {
        lemma_digit_roundtrip(n);
    } else {
        lemma_encode_well_formed(n / 62);
        let e = spec_encode(n);
        let p = spec_encode(n / 62);
        assert forall|i: int| 0 <= i < e.len() implies is_code_char(#[trigger] e[i]) by {
            if i < p.len() {
                assert(e[i] == p[i]);
            }
        }
        assert(e[0] == p[0]);
    }
}

/// The character of the digit `d` (`d < 62`).
fn digit(d: u8) -> (c: char)
    requires
        d < 62,
    ensures
        c == digit_char(d as nat),
{
    if d < 10 {
        (48u8 + d) as char
    } else if d < 36 {
        (97u8 + (d - 10)) as char
    } else {
        (65u8 + (d - 36)) as char
    }
}

/// Converts a number to its base-62 short code.
pub fn encode(n: u64) -> (s: String)
    ensures
        s@ == spec_encode(n as nat),
{
    let mut m: u64 = n;
    let mut digits: Vec<char> = Vec::new();
    loop
        invariant_except_break
            spec_encode(n as nat) == spec_encode(m as nat) + digits@,
        ensures
            spec_encode(n as nat) == digits@,
        decreases m,
    {
        let d: u8 = (m % 62) as u8;
        let c = digit(d);
        let ghost before = digits@;
        digits.insert(0, c);
        if m < 62 {
            assert(digits@ =~= seq![c] + before);
            break;
        }
        let next: u64 = m / 62;
        assert(digits@ =~= seq![c] + before);
        assert(spec_encode(m as nat) == spec_encode(next as nat).push(c));
        assert(spec_encode(next as nat).push(c) + before =~= spec_encode(next as nat) + digits@);
        m = next;
    }
    let mut s = String::new();
    let len = digits.len();
    for i in 0..len
        invariant
            len == digits.len(),
            s@ == digits@.subrange(0, i as int),
    {
        push_char(&mut s, digits[i]);
        assert(digits@.subrange(0, i + 1) =~= digits@.subrange(0, i as int).push(digits@[i as int]));
    }
    assert(digits@.subrange(0, len as int) =~= digits@);
    s
}

} // verus!
