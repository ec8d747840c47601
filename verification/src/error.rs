//! The ways in which textual input is rejected.

use vstd::prelude::*;

verus! {

/// Why a piece of text was rejected by one of the parsers.
#[derive(Clone, Copy, Debug, PartialEq, Eq)]
pub enum ParseError {
    /// Not an even-length hex string of exactly twenty bytes.
    InvalidAddress,
    /// Empty, holds a character that is no decimal digit, or denotes a
    /// number of more than 256 bits.
    InvalidInteger,
    /// Odd length, or a character that is no hex digit.
    InvalidHex,
}

/// The input field at which the assembly of a transaction stopped.
#[derive(Clone, Copy, Debug, PartialEq, Eq)]
pub enum FieldError {
    To,
    Value,
    Gas,
    GasPrice,
    Nonce,
    Calldata,
}

/// A required option that the command line does not give.
#[derive(Clone, Copy, Debug, PartialEq, Eq)]
pub enum MissingOption {
    Nonce,
    Gas,
    GasPrice,
}

impl MissingOption {
    /// The one-line message shown for this option.
    pub open spec fn message_spec(self) -> Seq<char> {
        match self {
            MissingOption::Nonce => "missing --nonce"@,
            MissingOption::Gas => "missing --gas"@,
            MissingOption::GasPrice => "missing --gasprice"@,
        }
    }

    /// The one-line message shown for this option.
    pub fn message(&self) -> (m: String)
        ensures
            m@ == self.message_spec(),
    {
        match self {
            MissingOption::Nonce => "missing --nonce".to_owned(),
            MissingOption::Gas => "missing --gas".to_owned(),
            MissingOption::GasPrice => "missing --gasprice".to_owned(),
        }
    }
}

impl FieldError {
    /// The kind of parse failure that rejects this field.
    pub open spec fn kind_spec(self) -> ParseError {
        match self {
            FieldError::To => ParseError::InvalidAddress,
            FieldError::Calldata => ParseError::InvalidHex,
            _ => ParseError::InvalidInteger,
        }
    }

    /// The one-line message shown for this field.
    pub open spec fn message_spec(self) -> Seq<char> {
        match self {
            FieldError::To => "invalid --to"@,
            FieldError::Value => "invalid --value"@,
            FieldError::Gas => "invalid --gas"@,
            FieldError::GasPrice => "invalid --gasprice"@,
            FieldError::Nonce => "invalid --nonce"@,
            FieldError::Calldata => "invalid calldata"@,
        }
    }

    /// The kind of parse failure that rejects this field.
    pub fn kind(&self) -> (k: ParseError)
        ensures
            k == self.kind_spec(),
    {
        match self {
            FieldError::To => ParseError::InvalidAddress,
            FieldError::Calldata => ParseError::InvalidHex,
            _ => ParseError::InvalidInteger,
        }
    }

    /// The one-line message shown for this field.
    pub fn message(&self) -> (m: String)
        ensures
            m@ == self.message_spec(),
    {
        match self {
            FieldError::To => "invalid --to".to_owned(),
            FieldError::Value => "invalid --value".to_owned(),
            FieldError::Gas => "invalid --gas".to_owned(),
            FieldError::GasPrice => "invalid --gasprice".to_owned(),
            FieldError::Nonce => "invalid --nonce".to_owned(),
            FieldError::Calldata => "invalid calldata".to_owned(),
        }
    }
}

} // verus!
