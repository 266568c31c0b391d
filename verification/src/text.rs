//! Byte classes, ASCII literals and decimal numerals over raw bytes.
//!
//! Input lines are byte strings, not text: nothing here assumes that a
//! line is valid UTF-8. Every class below is a set of single ASCII bytes.

use vstd::prelude::*;
use vstd::string::*;
use vstd::utf8::*;

verus! {

/// The bytes of a string of ASCII characters, one byte per character.
pub open spec fn ascii_bytes(chars: Seq<char>) -> Seq<u8> {
    Seq::new(chars.len(), |i: int| chars[i] as u8)
}

/// The bytes of an ASCII string literal.
pub fn literal_bytes(s: &'static str) -> (b: &'static [u8])
    requires
        is_ascii_chars(s@),
    ensures
        b@ == ascii_bytes(s@),
{
    proof {
        is_ascii_spec_bytes(s);
    }
    s.as_bytes()
}

/// Appends an ASCII string literal to `out`.
pub fn push_literal(out: &mut Vec<u8>, s: &'static str)
    requires
        is_ascii_chars(s@),
    ensures
        final(out)@ == old(out)@ + ascii_bytes(s@),
{
    push_bytes(out, literal_bytes(s));
}

/// Appends `bytes` to `out`.
pub fn push_bytes(out: &mut Vec<u8>, bytes: &[u8])
    ensures
        final(out)@ == old(out)@ + bytes@,
{
    let ghost before = out@;
    out.extend_from_slice(bytes);
    assert(out@ =~= before + bytes@);
}

/// Whether `b` is ASCII whitespace: space, tab, line feed, form feed or
/// carriage return. The vertical tab is not among them.
pub open spec fn is_space(b: u8) -> bool {
    b == 0x20 || b == 0x09 || b == 0x0a || b == 0x0c || b == 0x0d
}

/// Tells whether `b` is ASCII whitespace.
pub fn byte_is_space(b: u8) -> (r: bool)
    ensures
        r == is_space(b),
{
    b == 0x20 || b == 0x09 || b == 0x0a || b == 0x0c || b == 0x0d
}

/// Whether `b` is one of `0` to `9`.
pub open spec fn is_digit(b: u8) -> bool {
    0x30 <= b <= 0x39
}

/// The number that the digit `b` stands for.
pub open spec fn digit_value(b: u8) -> nat {
    (b - 0x30) as nat
}

/// Tells whether `b` is a decimal digit.
pub fn byte_is_digit(b: u8) -> (r: bool)
    ensures
        r == is_digit(b),
{
    0x30 <= b && b <= 0x39
}

/// Whether `b` is a hexadecimal digit, in either case.
pub open spec fn is_hex_digit(b: u8) -> bool {
    is_digit(b) || 0x61 <= b <= 0x66 || 0x41 <= b <= 0x46
}

/// The number that the hexadecimal digit `b` stands for.
pub open spec fn hex_digit_value(b: u8) -> nat {
    if is_digit(b) {
        (b - 0x30) as nat
    } else if 0x61 <= b <= 0x66 {
        (b - 0x61 + 10) as nat
    } else {
        (b - 0x41 + 10) as nat
    }
}

/// The value of the hexadecimal digit `b`, or `None` for any other byte.
pub fn hex_digit(b: u8) -> (r: Option<u8>)
    ensures
        r == (if is_hex_digit(b) {
            Some(hex_digit_value(b) as u8)
        } else {
            None
        }),
{
    if 0x30 <= b && b <= 0x39 {
        Some(b - 0x30)
    } else if 0x61 <= b && b <= 0x66 {
        Some(b - 0x61 + 10)
    } else if 0x41 <= b && b <= 0x46 {
        Some(b - 0x41 + 10)
    } else {
        None
    }
}

/// The lowercase hexadecimal digit for `v`, which is below 16.
pub open spec fn hex_digit_of(v: nat) -> u8 {
    if v < 10 {
        (0x30 + v) as u8
    } else {
        (0x61 + v - 10) as u8
    }
}

/// The two lowercase hexadecimal digits of a byte, high nibble first.
pub open spec fn hex_pair(b: u8) -> Seq<u8> {
    seq![hex_digit_of(b as nat / 16), hex_digit_of(b as nat % 16)]
}

/// Appends the two lowercase hexadecimal digits of `b` to `out`.
pub fn push_hex_pair(out: &mut Vec<u8>, b: u8)
    ensures
        final(out)@ == old(out)@ + hex_pair(b),
{
    let ghost before = out@;
    let hi: u8 = b / 16;
    let lo: u8 = b % 16;
    out.push(if hi < 10 { 0x30 + hi } else { 0x61 + (hi - 10) });
    out.push(if lo < 10 { 0x30 + lo } else { 0x61 + (lo - 10) });
    assert(out@ =~= before + hex_pair(b));
}

/// The byte `b` with an ASCII capital letter turned into its small letter.
pub open spec fn lower(b: u8) -> u8 {
    if 0x41 <= b <= 0x5a {
        (b + 0x20) as u8
    } else {
        b
    }
}

/// The byte string `s` with every ASCII capital letter made small.
pub open spec fn lowered(s: Seq<u8>) -> Seq<u8> {
    Seq::new(s.len(), |i: int| lower(s[i]))
}

/// Whether `word`, with its capital letters made small, is `keyword`.
pub fn equals_ignoring_case(word: &[u8], keyword: &[u8]) -> (r: bool)
    ensures
        r == (lowered(word@) == keyword@),
{
    if word.len() != keyword.len() {
        return false;
    }
    let mut i: usize = 0;
    while i < word.len()
        invariant
            i <= word.len(),
            word.len() == keyword.len(),
            forall|j: int| 0 <= j < i ==> lower(word@[j]) == keyword@[j],
        decreases word.len() - i,
    {
        let b = word[i];
        let small: u8 = if 0x41 <= b && b <= 0x5a { b + 0x20 } else { b };
        if small != keyword[i] {
            assert(lowered(word@)[i as int] != keyword@[i as int]);
            return false;
        }
        i += 1;
    }
    assert(lowered(word@) =~= keyword@);
    true
}

/// Whether every byte of `s` is a decimal digit.
pub open spec fn all_digits(s: Seq<u8>) -> bool {
    forall|i: int| 0 <= i < s.len() ==> is_digit(#[trigger] s[i])
}

/// The number that the digit string `s` writes in base ten, most
/// significant digit first; leading zeros are allowed and the empty string
/// is worth zero.
pub open spec fn decimal_value(s: Seq<u8>) -> nat
    decreases s.len(),
{
    if s.len() == 0 {
        0
    } else {
        10 * decimal_value(s.drop_last()) + digit_value(s.last())
    }
}

/// A numeral is a non-empty string of decimal digits.
pub open spec fn is_numeral(s: Seq<u8>) -> bool {
    s.len() > 0 && all_digits(s)
}

/// What a numeral is worth as a `u64`: `None` unless `s` is a numeral
/// whose value fits.
pub open spec fn numeral_u64(s: Seq<u8>) -> Option<u64> {
    if is_numeral(s) && decimal_value(s) <= u64::MAX {
        Some(decimal_value(s) as u64)
    } else {
        None
    }
}

/// A prefix of a digit string is worth no more than the whole.
pub proof fn lemma_decimal_prefix_bound(s: Seq<u8>, i: int)
    requires
        0 <= i <= s.len(),
    ensures
        decimal_value(s.take(i)) <= decimal_value(s),
    decreases s.len() - i,
{
    if i == s.len() {
        assert(s.take(i) =~= s);
    } else {
        assert(s.take(i + 1).drop_last() =~= s.take(i));
        lemma_decimal_prefix_bound(s, i + 1);
    }
}

/// Reads a numeral. Digits beyond the range of `u64` make it `None`, as
/// does any byte that is no digit, and the empty string.
pub fn parse_numeral(s: &[u8]) -> (r: Option<u64>)
    ensures
        r == numeral_u64(s@),
{
    let n = s.len();
    if n == 0 {
        return None;
    }
    let mut acc: u64 = 0;
    let mut i: usize = 0;
    while i < n
        invariant
            i <= n,
            n == s@.len(),
            all_digits(s@.take(i as int)),
            acc == decimal_value(s@.take(i as int)),
        decreases n - i,
    {
        let b = s[i];
        if !byte_is_digit(b) {
            return None;
        }
        let d: u64 = (b - 0x30) as u64;
        proof {
            assert(s@.take(i + 1).drop_last() =~= s@.take(i as int));
            lemma_decimal_prefix_bound(s@, i + 1);
        }
        let next = match acc.checked_mul(10) {
            Some(m) => m.checked_add(d),
            None => None,
        };
        match next {
            Some(v) => {
                acc = v;
            },
            None => {
                return None;
            },
        }
        i += 1;
    }
    proof {
        assert(s@.take(n as int) =~= s@);
    }
    Some(acc)
}

/// The decimal digits of `n`, most significant first, without leading
/// zeros; zero is written `0`.
pub open spec fn decimal_digits(n: nat) -> Seq<u8>
    decreases n,
{
    if n < 10 {
        seq![(0x30 + n) as u8]
    } else {
        decimal_digits(n / 10).push((0x30 + n % 10) as u8)
    }
}

/// Writing a number in decimal and reading it back gives the number, and
/// what is written is a numeral.
pub proof fn lemma_decimal_round_trip(n: nat)
    ensures
        is_numeral(decimal_digits(n)),
        decimal_value(decimal_digits(n)) == n,
    decreases n,
{
    let s = decimal_digits(n);
    if n < 10 {
        assert(s.drop_last() =~= Seq::<u8>::empty());
        assert(decimal_value(s.drop_last()) == 0);
    } else {
        lemma_decimal_round_trip(n / 10);
        assert(s.drop_last() =~= decimal_digits(n / 10));
    }
}

/// A larger number is written with no fewer digits.
pub proof fn lemma_decimal_digits_grow(a: nat, b: nat)
    requires
        a <= b,
    ensures
        1 <= decimal_digits(a).len() <= decimal_digits(b).len(),
    decreases b,
{
    if b >= 10 {
        if a >= 10 {
            lemma_decimal_digits_grow(a / 10, b / 10);
        } else {
            lemma_decimal_digits_grow(0, b / 10);
        }
    }
}

/// The decimal digits of `n`.
pub fn decimal_of(n: u128) -> (digits: Vec<u8>)
    ensures
        digits@ == decimal_digits(n as nat),
    decreases n,
{
    if n < 10 {
        let mut digits: Vec<u8> = Vec::new();
        digits.push(0x30 + n as u8);
        assert(digits@ =~= decimal_digits(n as nat));
        digits
    } else {
        let mut digits = decimal_of(n / 10);
        digits.push(0x30 + (n % 10) as u8);
        digits
    }
}

/// So many spaces.
pub open spec fn spaces(n: nat) -> Seq<u8> {
    Seq::new(n, |i: int| 0x20u8)
}

/// Appends `n` spaces to `out`.
pub fn push_spaces(out: &mut Vec<u8>, n: usize)
    ensures
        final(out)@ == old(out)@ + spaces(n as nat),
{
    let ghost before = out@;
    let mut i: usize = 0;
    while i < n
        invariant
            i <= n,
            out@ == before + spaces(i as nat),
        decreases n - i,
    {
        out.push(0x20);
        i += 1;
        assert(out@ =~= before + spaces(i as nat));
    }
}

} // verus!
