//! The two primitives of the recursive length prefix encoding: a byte string
//! and a list, each behind a header that gives its length.

use crate::radix::{be_minimal, lemma_be_minimal_len, lemma_pow256_8};
use crate::uint::U256;
use vstd::prelude::*;

verus! {

/// The first byte of the header of a byte string of up to 55 bytes is this
/// plus the length.
pub const STRING_OFFSET: u8 = 0x80;

/// The first byte of the header of a list of up to 55 bytes is this plus the
/// length.
pub const LIST_OFFSET: u8 = 0xc0;

/// The longest payload whose length is held in the first byte of the header.
pub const SHORT_MAX: usize = 55;

/// The header for a payload of `n` bytes.
///
/// Up to 55 bytes it is one byte, `offset + n`. A longer payload has its
/// length written out in the shortest big-endian form after a first byte
/// that gives the length of that form: `offset + 55` plus the number of
/// length bytes.
pub open spec fn rlp_header(offset: u8, n: nat) -> Seq<u8> {
    if n <= 55 {
        seq![(offset + n) as u8]
    } else {
        seq![(offset + 55 + be_minimal(n).len()) as u8] + be_minimal(n)
    }
}

/// The encoding of the byte string `s`: a single byte below `0x80` stands
/// for itself, and any other string follows its header.
pub open spec fn rlp_bytes(s: Seq<u8>) -> Seq<u8> {
    if s.len() == 1 && s[0] < 0x80 {
        s
    } else {
        rlp_header(0x80, s.len()) + s
    }
}

/// The encoding of a list, given `payload`, the encodings of its items one
/// after the other.
pub open spec fn rlp_list(payload: Seq<u8>) -> Seq<u8> {
    rlp_header(0xc0, payload.len()) + payload
}

/// The encoding of the number `n`: that of its shortest big-endian byte
/// string, which is empty for zero.
pub open spec fn rlp_uint(n: nat) -> Seq<u8> {
    rlp_bytes(be_minimal(n))
}

/// The encoding of a number below 256: `0x80` for zero, the number itself
/// as one byte below 128, and `0x81` before the byte from 128 on.
pub proof fn lemma_rlp_uint_one_byte(n: nat)
    requires
        n < 256,
    ensures
        n == 0 ==> rlp_uint(n) == seq![0x80u8],
        0 < n < 0x80 ==> rlp_uint(n) == seq![n as u8],
        0x80 <= n ==> rlp_uint(n) == seq![0x81u8, n as u8],
{
    assert(be_minimal(0) =~= Seq::<u8>::empty());
}

/// A length that fits a machine word takes at most eight bytes, so the first
/// byte of a header never leaves its range.
pub proof fn lemma_length_bytes(n: usize)
    ensures
        be_minimal(n as nat).len() <= 8,
        n > 0 ==> be_minimal(n as nat).len() >= 1,
{
    lemma_pow256_8();
    lemma_be_minimal_len(n as nat, 8);
}

/// Appends the header for a payload of `n` bytes to `out`.
fn push_header(out: &mut Vec<u8>, offset: u8, n: usize)
    requires
        offset == STRING_OFFSET || offset == LIST_OFFSET,
    ensures
        final(out)@ == old(out)@ + rlp_header(offset, n as nat),
{
    if n <= SHORT_MAX {
        out.push(offset + n as u8);
    } else {
        let length = U256::from_u64(n as u64).minimal_be_bytes();
        proof {
            lemma_length_bytes(n);
        }
        out.push(offset + 55 + length.len() as u8);
        out.extend_from_slice(length.as_slice());
    }
}

/// Encodes a byte string.
pub fn encode_bytes(s: &[u8]) -> (r: Vec<u8>)
    ensures
        r@ == rlp_bytes(s@),
{
    let mut out: Vec<u8> = Vec::new();
    if s.len() == 1 && s[0] < STRING_OFFSET {
        out.push(s[0]);
    } else {
        push_header(&mut out, STRING_OFFSET, s.len());
        out.extend_from_slice(s);
    }
    out
}

/// Wraps `payload`, the encodings of the items of a list one after the
/// other, as a list.
pub fn encode_list(payload: &[u8]) -> (r: Vec<u8>)
    ensures
        r@ == rlp_list(payload@),
{
    let mut out: Vec<u8> = Vec::new();
    push_header(&mut out, LIST_OFFSET, payload.len());
    out.extend_from_slice(payload);
    out
}

/// Encodes a number: its bytes without leading zeros, as a byte string.
pub fn encode_uint(v: &U256) -> (r: Vec<u8>)
    ensures
        r@ == rlp_uint(v@),
{
    let minimal = v.minimal_be_bytes();
    encode_bytes(minimal.as_slice())
}

} // verus!
