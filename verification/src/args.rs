//! From the textual fields of a command line to the bytes to sign.

use crate::address::{parse_address, parse_address_spec};
use crate::decimal::{parse_u256, parse_u256_spec};
use crate::error::{FieldError, MissingOption, ParseError};
use crate::hex::{parse_hex_bytes, parse_hex_spec, strip_hex_prefix, strip_hex_prefix_spec};
use crate::transaction::{
    encode_transaction, rlp_transaction, Action, Transaction, TransactionView,
};
use crate::uint::U256;
use vstd::prelude::*;

verus! {

/// The fields of a transaction as they were typed.
///
/// The recipient and the call data are hex text, with or without `0x` in
/// front; the other fields are decimal text.
#[derive(Clone, Debug, PartialEq, Eq)]
pub struct Args {
    /// The recipient; `None` creates a contract.
    pub flag_to: Option<String>,
    pub flag_nonce: String,
    /// The value to send; `None` sends nothing.
    pub flag_value: Option<String>,
    pub flag_gas: String,
    pub flag_gasprice: String,
    pub arg_calldata: String,
}

/// The options of a command line, each as typed or absent.
#[derive(Clone, Debug, PartialEq, Eq)]
pub struct Options {
    pub to: Option<String>,
    pub nonce: Option<String>,
    pub value: Option<String>,
    pub gas: Option<String>,
    pub gasprice: Option<String>,
    pub calldata: String,
}

impl Options {
    /// The first required option that is absent, in the order nonce, gas,
    /// gas price.
    pub open spec fn first_missing(&self) -> Option<MissingOption> {
        if self.nonce is None {
            Some(MissingOption::Nonce)
        } else if self.gas is None {
            Some(MissingOption::Gas)
        } else if self.gasprice is None {
            Some(MissingOption::GasPrice)
        } else {
            None
        }
    }

    /// The fields of the transaction, where the required options are given.
    pub open spec fn args_spec(&self) -> Args {
        Args {
            flag_to: self.to,
            flag_nonce: self.nonce->0,
            flag_value: self.value,
            flag_gas: self.gas->0,
            flag_gasprice: self.gasprice->0,
            arg_calldata: self.calldata,
        }
    }

    /// The fields of the transaction where nonce, gas and gas price are all
    /// given, and otherwise the first of them that is absent. The recipient
    /// and the value may be absent.
    pub fn into_args(self) -> (r: Result<Args, MissingOption>)
        ensures
            match r {
                Ok(args) => self.first_missing() is None && args == self.args_spec(),
                Err(e) => self.first_missing() == Some(e),
            },
    {
        let flag_nonce = match self.nonce {
            Some(nonce) => nonce,
            None => {
                return Err(MissingOption::Nonce);
            },
        };
        let flag_gas = match self.gas {
            Some(gas) => gas,
            None => {
                return Err(MissingOption::Gas);
            },
        };
        let flag_gasprice = match self.gasprice {
            Some(gasprice) => gasprice,
            None => {
                return Err(MissingOption::GasPrice);
            },
        };
        Ok(
            Args {
                flag_to: self.to,
                flag_nonce,
                flag_value: self.value,
                flag_gas,
                flag_gasprice,
                arg_calldata: self.calldata,
            },
        )
    }
}

impl Args {
    /// What `action` gives: a call where a recipient is named and parses as
    /// an address, and a contract creation where none is named.
    pub open spec fn action_spec(&self) -> Result<Option<Seq<u8>>, ParseError> {
        match self.flag_to {
            Some(to) => match parse_address_spec(strip_hex_prefix_spec(to@)) {
                Some(address) => Ok(Some(address)),
                None => Err(ParseError::InvalidAddress),
            },
            None => Ok(None),
        }
    }

    /// What `value` gives: the number typed, and zero where none was.
    pub open spec fn value_spec(&self) -> Result<nat, ParseError> {
        match self.flag_value {
            Some(value) => match parse_u256_spec(value@) {
                Some(n) => Ok(n),
                None => Err(ParseError::InvalidInteger),
            },
            None => Ok(0),
        }
    }

    /// The action of the transaction.
    pub fn action(&self) -> (r: Result<Action, ParseError>)
        ensures
            match r {
                Ok(action) => self.action_spec() == Ok::<_, ParseError>(action@),
                Err(e) => self.action_spec() == Err::<Option<Seq<u8>>, _>(e),
            },
    {
        match &self.flag_to {
            Some(to) => {
                match parse_address(strip_hex_prefix(to.as_str())) {
                    Ok(address) => Ok(Action::Call(address)),
                    Err(e) => Err(e),
                }
            },
            None => Ok(Action::Create),
        }
    }

    /// The value that the transaction sends.
    pub fn value(&self) -> (r: Result<U256, ParseError>)
        ensures
            match r {
                Ok(value) => self.value_spec() == Ok::<_, ParseError>(value@),
                Err(e) => self.value_spec() == Err::<nat, _>(e),
            },
    {
        match &self.flag_value {
            Some(value) => parse_u256(value.as_str()),
            None => Ok(U256::zero()),
        }
    }
}

/// What assembling a transaction from `args` gives: the transaction where
/// every field parses, and otherwise the first field that does not, in the
/// order recipient, value, gas, gas price, nonce, call data.
pub open spec fn build_transaction_spec(args: Args) -> Result<TransactionView, FieldError> {
    if args.action_spec() is Err {
        Err(FieldError::To)
    } else if args.value_spec() is Err {
        Err(FieldError::Value)
    } else if parse_u256_spec(args.flag_gas@) is None {
        Err(FieldError::Gas)
    } else if parse_u256_spec(args.flag_gasprice@) is None {
        Err(FieldError::GasPrice)
    } else if parse_u256_spec(args.flag_nonce@) is None {
        Err(FieldError::Nonce)
    } else if parse_hex_spec(strip_hex_prefix_spec(args.arg_calldata@)) is None {
        Err(FieldError::Calldata)
    } else {
        Ok(
            TransactionView {
                nonce: parse_u256_spec(args.flag_nonce@)->0,
                gas_price: parse_u256_spec(args.flag_gasprice@)->0,
                gas: parse_u256_spec(args.flag_gas@)->0,
                action: args.action_spec()->Ok_0,
                value: args.value_spec()->Ok_0,
                data: parse_hex_spec(strip_hex_prefix_spec(args.arg_calldata@))->0,
            },
        )
    }
}

/// What `run` gives: the encoding of the transaction assembled from `args`,
/// or the message for the first field that does not parse.
pub open spec fn run_spec(args: Args) -> Result<Seq<u8>, Seq<char>> {
    match build_transaction_spec(args) {
        Ok(t) => Ok(rlp_transaction(t)),
        Err(e) => Err(e.message_spec()),
    }
}

/// What `encode` gives: the message for the first required option that is
/// absent, and otherwise what `run` gives for the fields.
pub open spec fn encode_spec(options: Options) -> Result<Seq<u8>, Seq<char>> {
    match options.first_missing() {
        Some(missing) => Err(missing.message_spec()),
        None => run_spec(options.args_spec()),
    }
}

/// Assembles a transaction from its textual fields, stopping at the first
/// field that does not parse.
pub fn build_transaction(args: &Args) -> (r: Result<Transaction, FieldError>)
    ensures
        match r {
            Ok(tx) => build_transaction_spec(*args) == Ok::<_, FieldError>(tx@),
            Err(e) => build_transaction_spec(*args) == Err::<TransactionView, _>(e),
        },
{
    let action = match args.action() {
        Ok(action) => action,
        Err(_) => {
            return Err(FieldError::To);
        },
    };
    let value = match args.value() {
        Ok(value) => value,
        Err(_) => {
            return Err(FieldError::Value);
        },
    };
    let gas = match parse_u256(args.flag_gas.as_str()) {
        Ok(gas) => gas,
        Err(_) => {
            return Err(FieldError::Gas);
        },
    };
    let gas_price = match parse_u256(args.flag_gasprice.as_str()) {
        Ok(gas_price) => gas_price,
        Err(_) => {
            return Err(FieldError::GasPrice);
        },
    };
    let nonce = match parse_u256(args.flag_nonce.as_str()) {
        Ok(nonce) => nonce,
        Err(_) => {
            return Err(FieldError::Nonce);
        },
    };
    let data = match parse_hex_bytes(strip_hex_prefix(args.arg_calldata.as_str())) {
        Ok(data) => data,
        Err(_) => {
            return Err(FieldError::Calldata);
        },
    };
    Ok(Transaction { nonce, gas_price, gas, action, value, data })
}

/// Encodes the unsigned transaction that `args` describes, or says which
/// field is wrong.
pub fn run(args: &Args) -> (r: Result<Vec<u8>, String>)
    ensures
        match r {
            Ok(bytes) => run_spec(*args) == Ok::<_, Seq<char>>(bytes@),
            Err(message) => run_spec(*args) == Err::<Seq<u8>, _>(message@),
        },
{
    match build_transaction(args) {
        Ok(tx) => Ok(encode_transaction(&tx)),
        Err(e) => Err(e.message()),
    }
}

/// Encodes the unsigned transaction that the options of a command line
/// describe. Fails with a one-line message for the first required option
/// that is absent or, where all are there, for the first field that does not
/// parse.
pub fn encode(options: Options) -> (r: Result<Vec<u8>, String>)
    ensures
        match r {
            Ok(bytes) => encode_spec(options) == Ok::<_, Seq<char>>(bytes@),
            Err(message) => encode_spec(options) == Err::<Seq<u8>, _>(message@),
        },
{
    match options.into_args() {
        Ok(args) => run(&args),
        Err(missing) => Err(missing.message()),
    }
}

} // verus!
