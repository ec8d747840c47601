//! The transaction record and its encoding for signing.

use crate::address::Address;
use crate::radix::{lemma_pow256_8, pow256};
use crate::rlp::{encode_bytes, encode_list, encode_uint, rlp_bytes, rlp_list, rlp_uint};
use crate::uint::{lemma_u256_bound, u256_limit, U256};
use vstd::prelude::*;

verus! {

/// What a transaction does: call an account, or create a contract.
#[derive(Clone, Copy, Debug, PartialEq, Eq)]
pub enum Action {
    /// Deploys a contract; there is no recipient.
    Create,
    /// Calls, or transfers to, the account at the address.
    Call(Address),
}

impl View for Action {
    type V = Option<Seq<u8>>;

    /// The bytes of the recipient, where there is one.
    open spec fn view(&self) -> Option<Seq<u8>> {
        match self {
            Action::Create => None,
            Action::Call(address) => Some(address@),
        }
    }
}

/// An unsigned transaction.
#[derive(Clone, Debug, PartialEq, Eq)]
pub struct Transaction {
    pub nonce: U256,
    pub gas_price: U256,
    pub gas: U256,
    pub action: Action,
    pub value: U256,
    pub data: Vec<u8>,
}

/// A transaction as plain numbers and byte strings.
pub struct TransactionView {
    pub nonce: nat,
    pub gas_price: nat,
    pub gas: nat,
    pub action: Option<Seq<u8>>,
    pub value: nat,
    pub data: Seq<u8>,
}

impl View for Transaction {
    type V = TransactionView;

    open spec fn view(&self) -> TransactionView {
        TransactionView {
            nonce: self.nonce@,
            gas_price: self.gas_price@,
            gas: self.gas@,
            action: self.action@,
            value: self.value@,
            data: self.data@,
        }
    }
}

/// The encoding of the recipient field: the bytes of the address as they
/// are, and the empty byte string where a contract is created.
pub open spec fn rlp_action(action: Option<Seq<u8>>) -> Seq<u8> {
    match action {
        None => rlp_bytes(Seq::empty()),
        Some(address) => rlp_bytes(address),
    }
}

/// The encodings of the six fields, one after the other.
pub open spec fn rlp_fields(t: TransactionView) -> Seq<u8> {
    rlp_uint(t.nonce) + rlp_uint(t.gas_price) + rlp_uint(t.gas) + rlp_action(t.action) + rlp_uint(
        t.value,
    ) + rlp_bytes(t.data)
}

/// The encoding of an unsigned transaction: the list of its six fields.
pub open spec fn rlp_transaction(t: TransactionView) -> Seq<u8> {
    rlp_list(rlp_fields(t))
}

/// Whether `t` is a transaction that the encoding is made for: numbers of
/// 256 bits, a recipient of twenty bytes where there is one, and fields
/// whose encodings a machine word can count.
pub open spec fn encodable(t: TransactionView) -> bool {
    &&& t.nonce < u256_limit()
    &&& t.gas_price < u256_limit()
    &&& t.gas < u256_limit()
    &&& t.value < u256_limit()
    &&& t.action matches Some(address) ==> address.len() == 20
    &&& rlp_fields(t).len() < pow256(8)
}

/// The recipient field of a transaction that creates a contract is the one
/// byte `0x80`, whatever the other fields hold.
pub proof fn lemma_create_field(t: TransactionView)
    requires
        t.action is None,
    ensures
        rlp_action(t.action) == seq![0x80u8],
        rlp_fields(t) == rlp_uint(t.nonce) + rlp_uint(t.gas_price) + rlp_uint(t.gas) + seq![0x80u8]
            + rlp_uint(t.value) + rlp_bytes(t.data),
{
}

/// The recipient field of a call is the byte `0x94` and the twenty bytes of
/// the address, unchanged.
pub proof fn lemma_call_field(address: Address)
    ensures
        rlp_action(Action::Call(address)@) == seq![0x94u8] + address@,
{
}

/// Transactions that hold the same values have the same encoding.
pub proof fn lemma_encoding_deterministic(a: Transaction, b: Transaction)
    requires
        a@ == b@,
    ensures
        rlp_transaction(a@) == rlp_transaction(b@),
{
}

/// Encodes the recipient field.
pub fn encode_action(action: &Action) -> (r: Vec<u8>)
    ensures
        r@ == rlp_action(action@),
{
    match action {
        Action::Create => {
            let empty: [u8; 0] = [];
            encode_bytes(empty.as_slice())
        },
        Action::Call(address) => encode_bytes(address.bytes.as_slice()),
    }
}

/// Encodes an unsigned transaction: nonce, gas price, gas, recipient, value
/// and data, in this order, as a list.
pub fn encode_transaction(tx: &Transaction) -> (r: Vec<u8>)
    ensures
        r@ == rlp_transaction(tx@),
        encodable(tx@),
{
    let mut fields = encode_uint(&tx.nonce);
    let gas_price = encode_uint(&tx.gas_price);
    fields.extend_from_slice(gas_price.as_slice());
    let gas = encode_uint(&tx.gas);
    fields.extend_from_slice(gas.as_slice());
    let action = encode_action(&tx.action);
    fields.extend_from_slice(action.as_slice());
    let value = encode_uint(&tx.value);
    fields.extend_from_slice(value.as_slice());
    let data = encode_bytes(tx.data.as_slice());
    fields.extend_from_slice(data.as_slice());
    proof {
        lemma_u256_bound(tx.nonce);
        lemma_u256_bound(tx.gas_price);
        lemma_u256_bound(tx.gas);
        lemma_u256_bound(tx.value);
        lemma_pow256_8();
        assert(rlp_fields(tx@).len() == fields.len());
    }
    encode_list(fields.as_slice())
}

} // verus!
