//! Hex text and the byte strings that it denotes.

use crate::error::ParseError;
use crate::text::{ascii_bytes, bytes_of_chars};
use vstd::prelude::*;
use vstd::string::StringExecFns;

verus! {

/// Whether `c` is a hex digit, in either case.
pub open spec fn is_hex_digit(c: char) -> bool {
    '0' <= c <= '9' || 'a' <= c <= 'f' || 'A' <= c <= 'F'
}

/// Whether `c` is a hex digit that is no upper-case letter.
pub open spec fn is_lower_hex_digit(c: char) -> bool {
    '0' <= c <= '9' || 'a' <= c <= 'f'
}

/// The number that the hex digit `c` stands for; zero for any other
/// character.
pub open spec fn hex_digit_value(c: char) -> nat {
    if '0' <= c <= '9' {
        (c as u32 - '0' as u32) as nat
    } else if 'a' <= c <= 'f' {
        (c as u32 - 'a' as u32 + 10) as nat
    } else if 'A' <= c <= 'F' {
        (c as u32 - 'A' as u32 + 10) as nat
    } else {
        0
    }
}

/// The lower-case hex digit that stands for `d`, for `d` below sixteen.
pub open spec fn hex_digit_char(d: nat) -> char {
    if d < 10 {
        (d + 48) as u8 as char
    } else {
        (d + 87) as u8 as char
    }
}

/// Whether `s` is hex text: hex digits only, and an even number of them.
pub open spec fn is_hex(s: Seq<char>) -> bool {
    &&& s.len() % 2 == 0
    &&& forall|i: int| 0 <= i < s.len() ==> is_hex_digit(#[trigger] s[i])
}

/// Whether `s` is hex text without upper-case letters.
pub open spec fn is_lower_hex(s: Seq<char>) -> bool {
    &&& s.len() % 2 == 0
    &&& forall|i: int| 0 <= i < s.len() ==> is_lower_hex_digit(#[trigger] s[i])
}

/// The bytes that hex text denotes: each pair of digits gives one byte, the
/// first digit of a pair being the high half.
pub open spec fn hex_decode(s: Seq<char>) -> Seq<u8> {
    Seq::new(
        (s.len() / 2) as nat,
        |i: int| (16 * hex_digit_value(s[2 * i]) + hex_digit_value(s[2 * i + 1])) as u8,
    )
}

/// The lower-case hex text of `bytes`: two digits for each byte.
pub open spec fn hex_encode(bytes: Seq<u8>) -> Seq<char> {
    Seq::new(
        2 * bytes.len(),
        |i: int|
            if i % 2 == 0 {
                hex_digit_char((bytes[i / 2] / 16) as nat)
            } else {
                hex_digit_char((bytes[i / 2] % 16) as nat)
            },
    )
}

/// What parsing `s` as hex text gives: the bytes that it denotes, or nothing
/// where `s` has odd length or holds a character that is no hex digit.
pub open spec fn parse_hex_spec(s: Seq<char>) -> Option<Seq<u8>> {
    if is_hex(s) {
        Some(hex_decode(s))
    } else {
        None
    }
}

/// `s` without a leading `0x`, where it has one.
pub open spec fn strip_hex_prefix_spec(s: Seq<char>) -> Seq<char> {
    if s.len() >= 2 && s[0] == '0' && s[1] == 'x' {
        s.skip(2)
    } else {
        s
    }
}

/// `hex_digit_char` gives a lower-case hex digit of the same value.
pub proof fn lemma_hex_digit_char(d: nat)
    requires
        d < 16,
    ensures
        is_lower_hex_digit(hex_digit_char(d)),
        hex_digit_value(hex_digit_char(d)) == d,
{
}

/// A lower-case hex digit is the digit of its own value.
pub proof fn lemma_hex_digit_value(c: char)
    requires
        is_lower_hex_digit(c),
    ensures
        hex_digit_value(c) < 16,
        hex_digit_char(hex_digit_value(c)) == c,
{
}

/// Decoding lower-case hex text and encoding the bytes again gives the same
/// text.
pub proof fn lemma_hex_text_round_trip(h: Seq<char>)
    requires
        is_lower_hex(h),
    ensures
        parse_hex_spec(h) == Some(hex_decode(h)),
        hex_encode(hex_decode(h)) == h,
{
    assert forall|i: int| 0 <= i < h.len() implies is_hex_digit(#[trigger] h[i]) by {
        assert(is_lower_hex_digit(h[i]));
    }
    let back = hex_encode(hex_decode(h));
    assert forall|i: int| 0 <= i < h.len() implies back[i] == h[i] by {
        let pair = i / 2;
        lemma_hex_digit_value(h[2 * pair]);
        lemma_hex_digit_value(h[2 * pair + 1]);
    }
    assert(back =~= h);
}

/// Encoding bytes gives lower-case hex text that decodes to the same bytes.
pub proof fn lemma_hex_bytes_round_trip(bytes: Seq<u8>)
    ensures
        is_lower_hex(hex_encode(bytes)),
        parse_hex_spec(hex_encode(bytes)) == Some(bytes),
{
    let h = hex_encode(bytes);
    assert forall|i: int| 0 <= i < h.len() implies is_lower_hex_digit(#[trigger] h[i])
        && is_hex_digit(h[i]) by {
        let b = bytes[i / 2];
        lemma_hex_digit_char((b / 16) as nat);
        lemma_hex_digit_char((b % 16) as nat);
    }
    let back = hex_decode(h);
    assert forall|k: int| 0 <= k < bytes.len() implies back[k] == bytes[k] by {
        let b = bytes[k];
        lemma_hex_digit_char((b / 16) as nat);
        lemma_hex_digit_char((b % 16) as nat);
    }
    assert(back =~= bytes);
}

/// The value of the hex digit held in `b`, or `None` for any other byte.
fn hex_digit_of_byte(b: u8) -> (r: Option<u8>)
    ensures
        match r {
            Some(d) => is_hex_digit(b as char) && d == hex_digit_value(b as char) && d < 16,
            None => !is_hex_digit(b as char),
        },
{
    if b >= 48 && b <= 57 {
        Some(b - 48)
    } else if b >= 97 && b <= 102 {
        Some(b - 87)
    } else if b >= 65 && b <= 70 {
        Some(b - 55)
    } else {
        None
    }
}

/// Decodes hex text, or gives `None` where `text` is no hex text.
pub(crate) fn decode_hex(text: &str) -> (r: Option<Vec<u8>>)
    ensures
        match r {
            Some(bytes) => parse_hex_spec(text@) == Some(bytes@),
            None => parse_hex_spec(text@) is None,
        },
{
    let digits = match ascii_bytes(text) {
        Some(digits) => digits,
        None => {
            return None;
        },
    };
    let n = digits.len();
    if n % 2 != 0 {
        return None;
    }
    let mut out: Vec<u8> = Vec::new();
    let mut i: usize = 0;
    while i < n
        invariant
            i <= n,
            i % 2 == 0,
            n % 2 == 0,
            n == digits@.len(),
            bytes_of_chars(digits@, text@),
            forall|j: int| 0 <= j < i ==> is_hex_digit(#[trigger] text@[j]),
            out@ == hex_decode(text@.take(i as int)),
        decreases n - i,
    {
        assert(text@[i as int] == digits@[i as int] as char);
        assert(text@[i + 1] == digits@[i + 1] as char);
        let hi = match hex_digit_of_byte(digits[i]) {
            Some(hi) => hi,
            None => {
                return None;
            },
        };
        let lo = match hex_digit_of_byte(digits[i + 1]) {
            Some(lo) => lo,
            None => {
                return None;
            },
        };
        out.push(16 * hi + lo);
        assert(out@ =~= hex_decode(text@.take(i + 2)));
        i += 2;
    }
    assert(text@.take(n as int) =~= text@);
    Some(out)
}

/// Parses hex text into the bytes that it denotes.
///
/// The text holds hex digits of either case and nothing else, an even
/// number of them; empty text gives no bytes. No `0x` in front, no white
/// space.
pub fn parse_hex_bytes(text: &str) -> (r: Result<Vec<u8>, ParseError>)
    ensures
        match r {
            Ok(bytes) => parse_hex_spec(text@) == Some(bytes@),
            Err(e) => e == ParseError::InvalidHex && parse_hex_spec(text@) is None,
        },
{
    match decode_hex(text) {
        Some(bytes) => Ok(bytes),
        None => Err(ParseError::InvalidHex),
    }
}

/// The text of the single lower-case hex digit for `d`.
fn hex_digit_text(d: u8) -> (r: &'static str)
    requires
        d < 16,
    ensures
        r@ == seq![hex_digit_char(d as nat)],
{
    proof {
        reveal_strlit("0");
        reveal_strlit("1");
        reveal_strlit("2");
        reveal_strlit("3");
        reveal_strlit("4");
        reveal_strlit("5");
        reveal_strlit("6");
        reveal_strlit("7");
        reveal_strlit("8");
        reveal_strlit("9");
        reveal_strlit("a");
        reveal_strlit("b");
        reveal_strlit("c");
        reveal_strlit("d");
        reveal_strlit("e");
        reveal_strlit("f");
    }
    let r = match d {
        0 => "0",
        1 => "1",
        2 => "2",
        3 => "3",
        4 => "4",
        5 => "5",
        6 => "6",
        7 => "7",
        8 => "8",
        9 => "9",
        10 => "a",
        11 => "b",
        12 => "c",
        13 => "d",
        14 => "e",
        _ => "f",
    };
    assert(r@ =~= seq![hex_digit_char(d as nat)]);
    r
}

/// The lower-case hex text of `bytes`, two digits for each byte.
pub fn to_hex(bytes: &[u8]) -> (r: String)
    ensures
        r@ == hex_encode(bytes@),
{
    let mut out = String::new();
    let mut i: usize = 0;
    while i < bytes.len()
        invariant
            i <= bytes@.len(),
            out@ == hex_encode(bytes@.take(i as int)),
        decreases bytes@.len() - i,
    {
        let b = bytes[i];
        out.append(hex_digit_text(b / 16));
        out.append(hex_digit_text(b % 16));
        assert(out@ =~= hex_encode(bytes@.take(i + 1)));
        i += 1;
    }
    assert(bytes@.take(bytes@.len() as int) =~= bytes@);
    out
}

/// `text` without a leading `0x`, where it has one.
pub fn strip_hex_prefix(text: &str) -> (r: &str)
    ensures
        r@ == strip_hex_prefix_spec(text@),
{
    let n = text.unicode_len();
    if n >= 2 && text.get_char(0) == '0' && text.get_char(1) == 'x' {
        text.substring_char(2, n)
    } else {
        text
    }
}

} // verus!
