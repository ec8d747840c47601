//! Decimal text and the 256-bit integers that it denotes.

use crate::error::ParseError;
use crate::text::{ascii_bytes, bytes_of_chars};
use crate::uint::{lemma_u256_bound, lemma_u256_equal_by_value, u256_limit, U256};
use vstd::prelude::*;

verus! {

/// Whether `c` is one of the ASCII digits `0` to `9`.
pub open spec fn is_digit(c: char) -> bool {
    '0' <= c <= '9'
}

/// The number that the digit `c` stands for; zero for any other character.
pub open spec fn digit_value(c: char) -> nat {
    if is_digit(c) {
        (c as u32 - '0' as u32) as nat
    } else {
        0
    }
}

/// The digit that stands for `d`, for `d` below ten.
pub open spec fn digit_char(d: nat) -> char {
    (d + 48) as u8 as char
}

/// Whether `s` is decimal text: one digit or more, and nothing else.
pub open spec fn is_decimal(s: Seq<char>) -> bool {
    &&& s.len() > 0
    &&& forall|i: int| 0 <= i < s.len() ==> is_digit(#[trigger] s[i])
}

/// The number that the digits of `s` denote, the first digit weighing most.
pub open spec fn dec_value(s: Seq<char>) -> nat
    decreases s.len(),
{
    if s.len() == 0 {
        0
    } else {
        10 * dec_value(s.drop_last()) + digit_value(s.last())
    }
}

/// The decimal text of `n` without leading zeros; `0` for zero.
pub open spec fn dec_text(n: nat) -> Seq<char>
    decreases n,
{
    if n < 10 {
        seq![digit_char(n)]
    } else {
        dec_text(n / 10).push(digit_char(n % 10))
    }
}

/// What parsing `s` as a 256-bit integer gives: the number that `s` denotes
/// where `s` is decimal text and the number fits, and nothing otherwise.
pub open spec fn parse_u256_spec(s: Seq<char>) -> Option<nat> {
    if is_decimal(s) && dec_value(s) < u256_limit() {
        Some(dec_value(s))
    } else {
        None
    }
}

/// A prefix of a text denotes no more than the whole text.
pub proof fn lemma_dec_value_prefix(s: Seq<char>, k: int)
    requires
        0 <= k <= s.len(),
    ensures
        dec_value(s.take(k)) <= dec_value(s),
    decreases s.len() - k,
{
    if k == s.len() {
        assert(s.take(k) =~= s);
    } else {
        assert(s.drop_last().take(k) =~= s.take(k));
        lemma_dec_value_prefix(s.drop_last(), k);
    }
}

/// `digit_char` and `digit_value` are inverse to each other below ten.
pub proof fn lemma_digit_char(d: nat)
    requires
        d < 10,
    ensures
        is_digit(digit_char(d)),
        digit_value(digit_char(d)) == d,
{
}

/// The decimal text of a number is decimal text and denotes that number.
pub proof fn lemma_dec_text_value(n: nat)
    ensures
        is_decimal(dec_text(n)),
        dec_value(dec_text(n)) == n,
    decreases n,
{
    let t = dec_text(n);
    if n < 10 {
        lemma_digit_char(n);
        assert(t.drop_last() =~= Seq::<char>::empty());
        assert(dec_value(Seq::<char>::empty()) == 0);
    } else {
        lemma_dec_text_value(n / 10);
        lemma_digit_char(n % 10);
        assert(t.drop_last() =~= dec_text(n / 10));
    }
}

/// Parsing the decimal text of a number gives the number back where it is
/// below two to the 256, and fails from two to the 256 on.
pub proof fn lemma_parse_dec_text(n: nat)
    ensures
        n < u256_limit() ==> parse_u256_spec(dec_text(n)) == Some(n),
        n >= u256_limit() ==> parse_u256_spec(dec_text(n)) is None,
{
    lemma_dec_text_value(n);
}

/// Parsing the decimal text of any `U256` succeeds, and whatever `U256`
/// stands for the number parsed is that same value.
pub proof fn lemma_parse_round_trip(v: U256, parsed: U256)
    ensures
        parse_u256_spec(dec_text(v@)) == Some(v@),
        parse_u256_spec(dec_text(v@)) == Some(parsed@) ==> parsed == v,
{
    lemma_u256_bound(v);
    lemma_parse_dec_text(v@);
    if parsed@ == v@ {
        lemma_u256_equal_by_value(parsed, v);
    }
}

/// Parses decimal text into a 256-bit integer.
///
/// The text holds one ASCII digit or more and nothing else: no sign, no
/// white space. Leading zeros are accepted. Text that denotes a number of
/// more than 256 bits is rejected like text with a wrong character.
pub fn parse_u256(text: &str) -> (r: Result<U256, ParseError>)
    ensures
        match r {
            Ok(v) => parse_u256_spec(text@) == Some(v@),
            Err(e) => e == ParseError::InvalidInteger && parse_u256_spec(text@) is None,
        },
{
    let bytes = match ascii_bytes(text) {
        Some(bytes) => bytes,
        None => {
            return Err(ParseError::InvalidInteger);
        },
    };
    let n = bytes.len();
    if n == 0 {
        return Err(ParseError::InvalidInteger);
    }
    let mut acc = U256::zero();
    let mut i: usize = 0;
    while i < n
        invariant
            i <= n,
            n == bytes@.len(),
            bytes_of_chars(bytes@, text@),
            forall|j: int| 0 <= j < i ==> is_digit(#[trigger] text@[j]),
            acc@ == dec_value(text@.take(i as int)),
        decreases n - i,
    {
        let b = bytes[i];
        if b < 48 || b > 57 {
            assert(!is_digit(text@[i as int]));
            return Err(ParseError::InvalidInteger);
        }
        proof {
            assert(text@.take(i + 1).drop_last() =~= text@.take(i as int));
            lemma_dec_value_prefix(text@, i + 1);
        }
        match acc.mul10_add(b - 48) {
            Some(v) => {
                acc = v;
            },
            None => {
                return Err(ParseError::InvalidInteger);
            },
        }
        i += 1;
    }
    proof {
        assert(text@.take(n as int) =~= text@);
        lemma_u256_bound(acc);
    }
    Ok(acc)
}

} // verus!
