//! Positions in the store, and the words that name them.
//!
//! A position is written `.` for where the cursor stands, `<` for the end,
//! `+n` or `-n` for a distance from the cursor, `n` for a distance from
//! the start and `n<` for a distance back from the end.

use crate::repl::errors::ParseError;
use crate::text::{all_digits, byte_is_digit, decimal_value, is_digit, is_numeral, parse_numeral};
use vstd::prelude::*;
use vstd::slice::slice_subrange;

verus! {

/// The byte `.`.
pub const DOT: u8 = 0x2e;

/// The byte `<`.
pub const LESS: u8 = 0x3c;

/// The byte `+`.
pub const PLUS: u8 = 0x2b;

/// The byte `-`.
pub const MINUS: u8 = 0x2d;

/// Where to move the cursor of the store.
#[derive(Debug, Clone, Copy, PartialEq, Eq, Structural)]
pub enum SeekDescriptor {
    /// So many bytes after the start of the store.
    Absolute(u64),
    /// So many bytes after the cursor, or before it when negative. Zero
    /// leaves the cursor where it is.
    Relative(i64),
    /// So many bytes after the end of the store, or before it when
    /// negative. Zero is the end itself.
    FromEnd(i64),
}

impl SeekDescriptor {
    /// Whether this is the seek that moves nothing, which also serves to
    /// ask where the cursor stands.
    pub open spec fn is_stay(self) -> bool {
        self == SeekDescriptor::Relative(0)
    }

    /// Whether this is the seek that moves nothing.
    pub fn stays(&self) -> (r: bool)
        ensures
            r == self.is_stay(),
    {
        match self {
            SeekDescriptor::Relative(delta) => *delta == 0,
            _ => false,
        }
    }
}

/// What a signed word is worth: a sign, then a numeral whose value, with
/// that sign, fits in an `i64`.
pub open spec fn signed_value(t: Seq<u8>) -> Option<i64> {
    let digits = t.subrange(1, t.len() as int);
    if t.len() == 0 || !is_numeral(digits) {
        None
    } else if t[0] == MINUS {
        if decimal_value(digits) <= 0x8000_0000_0000_0000 {
            Some((-(decimal_value(digits) as int)) as i64)
        } else {
            None
        }
    } else if t[0] == PLUS {
        if decimal_value(digits) <= 0x7fff_ffff_ffff_ffff {
            Some(decimal_value(digits) as i64)
        } else {
            None
        }
    } else {
        None
    }
}

/// The position that the word `t` names, or why it names none. The forms
/// are tried in this order, and the first that fits decides.
pub open spec fn resolve(t: Seq<u8>) -> Result<SeekDescriptor, ParseError> {
    if t.len() == 0 {
        Err(ParseError::MissingSeekArgument)
    } else if t == seq![DOT] {
        Ok(SeekDescriptor::Relative(0))
    } else if t == seq![LESS] {
        Ok(SeekDescriptor::FromEnd(0))
    } else if t[0] == PLUS || t[0] == MINUS {
        match signed_value(t) {
            Some(delta) => Ok(SeekDescriptor::Relative(delta)),
            None => Err(ParseError::InvalidDigitInSeekArgument),
        }
    } else if t.last() == LESS && is_numeral(t.drop_last()) {
        if decimal_value(t.drop_last()) <= 0x7fff_ffff_ffff_ffff {
            Ok(SeekDescriptor::FromEnd((-(decimal_value(t.drop_last()) as int)) as i64))
        } else {
            Err(ParseError::InvalidDigitInSeekArgument)
        }
    } else if is_numeral(t) {
        if decimal_value(t) <= u64::MAX {
            Ok(SeekDescriptor::Absolute(decimal_value(t) as u64))
        } else {
            Err(ParseError::InvalidDigitInSeekArgument)
        }
    } else {
        Err(ParseError::InvalidSeekArgument)
    }
}

/// Whether `t` has one of the five written forms of a position, whatever
/// the size of its number.
pub open spec fn is_seek_word(t: Seq<u8>) -> bool {
    ||| t == seq![DOT]
    ||| t == seq![LESS]
    ||| t.len() >= 2 && (t[0] == PLUS || t[0] == MINUS) && all_digits(t.subrange(1, t.len() as int))
    ||| is_numeral(t)
    ||| t.len() >= 2 && t.last() == LESS && all_digits(t.drop_last())
}

/// The number that a word of one of the five forms holds, before any sign.
pub open spec fn seek_word_magnitude(t: Seq<u8>) -> nat {
    if t == seq![DOT] || t == seq![LESS] {
        0
    } else if t[0] == PLUS || t[0] == MINUS {
        decimal_value(t.subrange(1, t.len() as int))
    } else if t.last() == LESS {
        decimal_value(t.drop_last())
    } else {
        decimal_value(t)
    }
}

/// A word names a position only if it has one of the five written forms.
/// A word of such a form names one unless its number is too large, and
/// then the error is that of a bad digit.
pub proof fn lemma_resolve_follows_grammar(t: Seq<u8>)
    ensures
        resolve(t) is Ok ==> is_seek_word(t),
        !is_seek_word(t) ==> resolve(t) is Err,
        is_seek_word(t) && seek_word_magnitude(t) <= 0x7fff_ffff_ffff_ffff ==> resolve(t) is Ok,
        is_seek_word(t) && resolve(t) is Err ==> resolve(t) == Err::<SeekDescriptor, ParseError>(
            ParseError::InvalidDigitInSeekArgument,
        ),
{
    if t.len() > 0 && t != seq![DOT] && t != seq![LESS] {
        if t[0] == PLUS || t[0] == MINUS {
            let digits = t.subrange(1, t.len() as int);
            if t.len() >= 2 && all_digits(digits) {
                assert(is_numeral(digits));
            }
            if is_seek_word(t) {
                if is_numeral(t) {
                    assert(is_digit(t[0]));
                }
                if t.last() == LESS && all_digits(t.drop_last()) && t.len() >= 2 {
                    assert(t.drop_last()[0] == t[0]);
                    assert(is_digit(t.drop_last()[0]));
                }
            }
        } else if t.last() == LESS {
            if is_numeral(t) {
                assert(is_digit(t[t.len() - 1]));
            }
            if t.len() == 1 {
                assert(t =~= seq![LESS]);
            }
        }
    }
}

/// Whether every byte of `s` is a decimal digit.
pub fn only_digits(s: &[u8]) -> (r: bool)
    ensures
        r == all_digits(s@),
{
    let mut i: usize = 0;
    while i < s.len()
        invariant
            i <= s.len(),
            forall|j: int| 0 <= j < i ==> is_digit(#[trigger] s@[j]),
        decreases s.len() - i,
    {
        if !byte_is_digit(s[i]) {
            return false;
        }
        i += 1;
    }
    true
}

/// Reads the word of a position.
pub fn parse_seek_arg(word: &[u8]) -> (r: Result<SeekDescriptor, ParseError>)
    ensures
        r == resolve(word@),
{
    let n = word.len();
    if n == 0 {
        return Err(ParseError::MissingSeekArgument);
    }
    let first = word[0];
    let last = word[n - 1];
    if n == 1 && first == DOT {
        assert(word@ =~= seq![DOT]);
        return Ok(SeekDescriptor::Relative(0));
    }
    if n == 1 && first == LESS {
        assert(word@ =~= seq![LESS]);
        return Ok(SeekDescriptor::FromEnd(0));
    }
    assert(word@ != seq![DOT] && word@ != seq![LESS]) by {
        if n == 1 {
            assert(seq![DOT][0] == DOT && seq![LESS][0] == LESS);
        } else {
            assert(seq![DOT].len() == 1 && seq![LESS].len() == 1);
        }
    }
    if first == PLUS || first == MINUS {
        let digits = slice_subrange(word, 1, n);
        match parse_numeral(digits) {
            Some(v) => {
                if first == MINUS {
                    if v < 0x8000_0000_0000_0000 {
                        Ok(SeekDescriptor::Relative(-(v as i64)))
                    } else if v == 0x8000_0000_0000_0000 {
                        Ok(SeekDescriptor::Relative(i64::MIN))
                    } else {
                        Err(ParseError::InvalidDigitInSeekArgument)
                    }
                } else if v <= 0x7fff_ffff_ffff_ffff {
                    Ok(SeekDescriptor::Relative(v as i64))
                } else {
                    Err(ParseError::InvalidDigitInSeekArgument)
                }
            },
            None => Err(ParseError::InvalidDigitInSeekArgument),
        }
    } else if last == LESS && only_digits(slice_subrange(word, 0, n - 1)) && n >= 2 {
        let digits = slice_subrange(word, 0, n - 1);
        assert(digits@ =~= word@.drop_last());
        match parse_numeral(digits) {
            Some(v) => {
                if v <= 0x7fff_ffff_ffff_ffff {
                    Ok(SeekDescriptor::FromEnd(-(v as i64)))
                } else {
                    Err(ParseError::InvalidDigitInSeekArgument)
                }
            },
            None => Err(ParseError::InvalidDigitInSeekArgument),
        }
    } else if only_digits(word) {
        match parse_numeral(word) {
            Some(v) => Ok(SeekDescriptor::Absolute(v)),
            None => Err(ParseError::InvalidDigitInSeekArgument),
        }
    } else {
        Err(ParseError::InvalidSeekArgument)
    }
}

} // verus!
