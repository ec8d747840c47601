//! Builds an unsigned Ethereum transaction from textual fields and serialises
//! it as canonical RLP bytes, ready to be signed elsewhere.
//!
//! Every function here is verified: each contract is stated over the plain
//! mathematical reading of the data (natural numbers and byte sequences).

pub mod address;
pub mod args;
pub mod decimal;
pub mod error;
pub mod hex;
pub mod inverse;
pub mod radix;
pub mod rlp;
mod text;
pub mod transaction;
pub mod uint;
