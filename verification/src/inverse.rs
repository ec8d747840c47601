//! Reading an encoding back.
//!
//! Nothing here runs: the functions below say, for proofs only, what stands
//! at the front of a byte string, and the lemmas show that they undo the
//! encoders. It follows that no two transactions share an encoding, so a
//! signature over the bytes is a signature over the transaction.

use crate::radix::{be_minimal, be_value, lemma_be_minimal_len, lemma_be_minimal_value, pow256};
use crate::rlp::{rlp_bytes, rlp_header, rlp_list, rlp_uint};
use crate::transaction::{encodable, rlp_action, rlp_fields, rlp_transaction, TransactionView};
use crate::uint::{lemma_pow256_32, u256_limit};
use vstd::prelude::*;

verus! {

/// The length of the payload that the header at the front of `e` announces,
/// and the length of that header.
#[verifier::opaque]
pub open spec fn read_header(offset: u8, e: Seq<u8>) -> (int, int) {
    let first = e[0];
    if first <= offset + 55 {
        (first - offset, 1)
    } else {
        let k = first - offset - 55;
        (be_value(e.subrange(1, 1 + k)) as int, 1 + k)
    }
}

/// The byte string encoded at the front of `e`, and what follows it.
#[verifier::opaque]
pub open spec fn read_bytes(e: Seq<u8>) -> (Seq<u8>, Seq<u8>) {
    if e[0] < 0x80 {
        (e.take(1), e.skip(1))
    } else {
        let (n, h) = read_header(0x80, e);
        (e.subrange(h, h + n), e.skip(h + n))
    }
}

/// The payload of the list encoded at the front of `e`.
#[verifier::opaque]
pub open spec fn read_list(e: Seq<u8>) -> Seq<u8> {
    let (n, h) = read_header(0xc0, e);
    e.subrange(h, h + n)
}

/// The recipient that a field of the encoding stands for.
pub open spec fn read_action(field: Seq<u8>) -> Option<Seq<u8>> {
    if field.len() == 0 {
        None
    } else {
        Some(field)
    }
}

/// The transaction encoded in `e`.
pub open spec fn read_transaction(e: Seq<u8>) -> TransactionView {
    let (nonce, after_nonce) = read_bytes(read_list(e));
    let (gas_price, after_gas_price) = read_bytes(after_nonce);
    let (gas, after_gas) = read_bytes(after_gas_price);
    let (action, after_action) = read_bytes(after_gas);
    let (value, after_value) = read_bytes(after_action);
    let (data, _) = read_bytes(after_value);
    TransactionView {
        nonce: be_value(nonce),
        gas_price: be_value(gas_price),
        gas: be_value(gas),
        action: read_action(action),
        value: be_value(value),
        data,
    }
}

/// A header is read back as the length that it was made for, whatever
/// follows it.
pub proof fn lemma_read_header(offset: u8, n: nat, rest: Seq<u8>)
    requires
        offset == 0x80 || offset == 0xc0,
        n < pow256(8),
    ensures
        read_header(offset, rlp_header(offset, n) + rest) == (
            n as int,
            rlp_header(offset, n).len() as int,
        ),
{
    reveal(read_header);
    let header = rlp_header(offset, n);
    let e = header + rest;
    if n > 55 {
        let length = be_minimal(n);
        lemma_be_minimal_len(n, 8);
        lemma_be_minimal_value(n);
        assert(e.subrange(1, 1 + length.len() as int) =~= length);
    }
}

/// An encoded byte string is read back as it was, together with whatever
/// follows it.
pub proof fn lemma_read_bytes(s: Seq<u8>, rest: Seq<u8>)
    requires
        s.len() < pow256(8),
    ensures
        read_bytes(rlp_bytes(s) + rest) == (s, rest),
{
    reveal(read_bytes);
    let e = rlp_bytes(s) + rest;
    if s.len() == 1 && s[0] < 0x80 {
        assert(e.take(1) =~= s);
        assert(e.skip(1) =~= rest);
    } else {
        let header = rlp_header(0x80, s.len());
        lemma_read_header(0x80, s.len(), s + rest);
        assert(e =~= header + (s + rest));
        if s.len() > 55 {
            lemma_be_minimal_len(s.len(), 8);
        }
        assert(e[0] >= 0x80);
        let h = header.len() as int;
        assert(e.subrange(h, h + s.len()) =~= s);
        assert(e.skip(h + s.len()) =~= rest);
    }
}

/// The payload of an encoded list is read back as it was.
pub proof fn lemma_read_list(payload: Seq<u8>)
    requires
        payload.len() < pow256(8),
    ensures
        read_list(rlp_list(payload)) == payload,
{
    reveal(read_list);
    let header = rlp_header(0xc0, payload.len());
    lemma_read_header(0xc0, payload.len(), payload);
    let h = header.len() as int;
    assert(rlp_list(payload).subrange(h, h + payload.len()) =~= payload);
}

/// An encoded number is read back as the bytes that denote it.
pub proof fn lemma_read_uint(n: nat, rest: Seq<u8>)
    requires
        n < u256_limit(),
    ensures
        read_bytes(rlp_uint(n) + rest).1 == rest,
        be_value(read_bytes(rlp_uint(n) + rest).0) == n,
{
    lemma_pow256_32();
    lemma_be_minimal_len(n, 32);
    lemma_be_minimal_value(n);
    assert(pow256(8) > 32) by {
        reveal_with_fuel(pow256, 9);
    }
    lemma_read_bytes(be_minimal(n), rest);
}

/// The encoding of a byte string is at least as long as the string.
pub proof fn lemma_rlp_bytes_len(s: Seq<u8>)
    ensures
        rlp_bytes(s).len() >= s.len(),
{
}

/// The encoding of a transaction is read back as that transaction.
pub proof fn lemma_read_transaction(t: TransactionView)
    requires
        encodable(t),
    ensures
        read_transaction(rlp_transaction(t)) == t,
{
    let fields = rlp_fields(t);
    let r5 = rlp_bytes(t.data);
    let r4 = rlp_uint(t.value) + r5;
    let r3 = rlp_action(t.action) + r4;
    let r2 = rlp_uint(t.gas) + r3;
    let r1 = rlp_uint(t.gas_price) + r2;
    let r0 = rlp_uint(t.nonce) + r1;
    assert(fields =~= r0);
    lemma_read_list(fields);
    lemma_read_uint(t.nonce, r1);
    lemma_read_uint(t.gas_price, r2);
    lemma_read_uint(t.gas, r3);
    assert(read_bytes(r3).1 == r4 && read_action(read_bytes(r3).0) == t.action) by {
        assert(pow256(8) > 32) by {
            reveal_with_fuel(pow256, 9);
        }
        match t.action {
            Some(address) => lemma_read_bytes(address, r4),
            None => lemma_read_bytes(Seq::<u8>::empty(), r4),
        }
    }
    lemma_read_uint(t.value, r5);
    assert(read_bytes(r5).0 == t.data) by {
        lemma_rlp_bytes_len(t.data);
        assert(fields.len() >= r5.len());
        lemma_read_bytes(t.data, Seq::<u8>::empty());
        assert(r5 =~= r5 + Seq::<u8>::empty());
    }
}

/// Two transactions with one encoding are one transaction.
pub proof fn lemma_encoding_injective(a: TransactionView, b: TransactionView)
    requires
        encodable(a),
        encodable(b),
        rlp_transaction(a) == rlp_transaction(b),
    ensures
        a == b,
{
    lemma_read_transaction(a);
    lemma_read_transaction(b);
}

} // verus!
