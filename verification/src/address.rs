//! Account addresses: twenty bytes, written as forty hex digits.

use crate::error::ParseError;
use crate::hex::{decode_hex, hex_decode, is_hex};
use vstd::prelude::*;

verus! {

/// The address of an account: twenty bytes that are never read as a number.
#[derive(Clone, Copy, Debug, PartialEq, Eq)]
pub struct Address {
    pub bytes: [u8; 20],
}

impl View for Address {
    type V = Seq<u8>;

    /// The twenty bytes, in order.
    open spec fn view(&self) -> Seq<u8> {
        self.bytes@
    }
}

/// What parsing `s` as an address gives: the twenty bytes that `s` denotes
/// where `s` is hex text of forty digits, and nothing otherwise.
pub open spec fn parse_address_spec(s: Seq<char>) -> Option<Seq<u8>> {
    if is_hex(s) && s.len() == 40 {
        Some(hex_decode(s))
    } else {
        None
    }
}

/// Parses the forty hex digits of an address.
///
/// The text holds hex digits of either case and nothing else; a `0x` in
/// front is for the caller to take off.
pub fn parse_address(text: &str) -> (r: Result<Address, ParseError>)
    ensures
        match r {
            Ok(a) => parse_address_spec(text@) == Some(a@),
            Err(e) => e == ParseError::InvalidAddress && parse_address_spec(text@) is None,
        },
{
    let decoded = match decode_hex(text) {
        Some(decoded) => decoded,
        None => {
            return Err(ParseError::InvalidAddress);
        },
    };
    if decoded.len() != 20 {
        return Err(ParseError::InvalidAddress);
    }
    let mut bytes = [0u8; 20];
    let mut i: usize = 0;
    while i < 20
        invariant
            i <= 20,
            decoded@.len() == 20,
            forall|j: int| 0 <= j < i ==> bytes@[j] == decoded@[j],
        decreases 20 - i,
    {
        bytes[i] = decoded[i];
        i += 1;
    }
    Ok(Address { bytes })
}

} // verus!
