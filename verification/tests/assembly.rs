use ethtransaction::address::Address;
use ethtransaction::args::{build_transaction, encode, run, Args, Options};
use ethtransaction::error::{FieldError, MissingOption, ParseError};
use ethtransaction::hex::to_hex;
use ethtransaction::transaction::Action;
use ethtransaction::uint::U256;

const ZERO_ADDRESS: &str = "0x0000000000000000000000000000000000000000";

fn args(to: Option<&str>, nonce: &str, value: Option<&str>, gas: &str, gasprice: &str, calldata: &str) -> Args {
    Args {
        flag_to: to.map(String::from),
        flag_nonce: nonce.to_string(),
        flag_value: value.map(String::from),
        flag_gas: gas.to_string(),
        flag_gasprice: gasprice.to_string(),
        arg_calldata: calldata.to_string(),
    }
}

#[test]
fn end_to_end_call_vector() {
    let a = args(Some(ZERO_ADDRESS), "0", Some("0"), "2", "1", "");
    let out = run(&a).unwrap();
    let mut expected = vec![0xda, 0x80, 0x01, 0x02, 0x94];
    expected.extend_from_slice(&[0u8; 20]);
    expected.extend_from_slice(&[0x80, 0x80]);
    assert_eq!(out, expected);
    assert_eq!(to_hex(&out), "da8001029400000000000000000000000000000000000000008080");
}

#[test]
fn end_to_end_create_vector() {
    let a = args(None, "0", Some("0"), "2", "1", "");
    let out = run(&a).unwrap();
    assert_eq!(out, vec![0xc6, 0x80, 0x01, 0x02, 0x80, 0x80, 0x80]);
    assert_eq!(to_hex(&out), "c6800102808080");
    // Twenty-one bytes of recipient became one.
    let call = run(&args(Some(ZERO_ADDRESS), "0", Some("0"), "2", "1", "")).unwrap();
    assert_eq!(call.len() - out.len(), 20);
    assert_eq!(call[0] - out[0], 20);
}

#[test]
fn value_defaults_to_zero() {
    let with = run(&args(Some(ZERO_ADDRESS), "0", Some("0"), "2", "1", "")).unwrap();
    let without = run(&args(Some(ZERO_ADDRESS), "0", None, "2", "1", "")).unwrap();
    assert_eq!(with, without);
    assert_eq!(args(None, "0", None, "2", "1", "").value(), Ok(U256::zero()));
    assert_eq!(args(None, "0", Some("17"), "2", "1", "").value(), Ok(U256::from_u64(17)));
    assert_eq!(args(None, "0", Some(""), "2", "1", "").value(), Err(ParseError::InvalidInteger));
}

#[test]
fn action_follows_the_recipient() {
    assert_eq!(args(None, "0", None, "2", "1", "").action(), Ok(Action::Create));
    assert_eq!(
        args(Some(ZERO_ADDRESS), "0", None, "2", "1", "").action(),
        Ok(Action::Call(Address { bytes: [0; 20] }))
    );
    assert_eq!(
        args(Some("00000000000000000000000000000000000000ff"), "0", None, "2", "1", "").action(),
        Ok(Action::Call(Address {
            bytes: [0, 0, 0, 0, 0, 0, 0, 0, 0, 0, 0, 0, 0, 0, 0, 0, 0, 0, 0, 0xff]
        }))
    );
    // An empty recipient was named, and is no address.
    assert_eq!(
        args(Some(""), "0", None, "2", "1", "").action(),
        Err(ParseError::InvalidAddress)
    );
}

#[test]
fn the_0x_prefix_is_optional_on_recipient_and_data() {
    let bare = args(
        Some("0000000000000000000000000000000000000000"),
        "0",
        None,
        "2",
        "1",
        "deadbeef",
    );
    let prefixed = args(Some(ZERO_ADDRESS), "0", None, "2", "1", "0xdeadbeef");
    assert_eq!(run(&bare).unwrap(), run(&prefixed).unwrap());
    assert_eq!(build_transaction(&prefixed).unwrap().data, vec![0xde, 0xad, 0xbe, 0xef]);
    assert_eq!(build_transaction(&args(None, "0", None, "2", "1", "0x")).unwrap().data, vec![]);
}

#[test]
fn build_transaction_places_each_field() {
    let tx = build_transaction(&args(
        Some("0x3535353535353535353535353535353535353535"),
        "9",
        Some("1000000000000000000"),
        "21000",
        "20000000000",
        "00ff",
    ))
    .unwrap();
    assert_eq!(tx.nonce, U256::from_u64(9));
    assert_eq!(tx.gas_price, U256::from_u64(20_000_000_000));
    assert_eq!(tx.gas, U256::from_u64(21000));
    assert_eq!(tx.action, Action::Call(Address { bytes: [0x35; 20] }));
    assert_eq!(tx.value, U256::from_u64(1_000_000_000_000_000_000));
    assert_eq!(tx.data, vec![0x00, 0xff]);
}

#[test]
fn too_short_recipient_is_an_invalid_address() {
    let a = args(Some("0xabcd"), "0", None, "2", "1", "");
    assert_eq!(a.action(), Err(ParseError::InvalidAddress));
    assert_eq!(build_transaction(&a), Err(FieldError::To));
    assert_eq!(FieldError::To.kind(), ParseError::InvalidAddress);
    assert_eq!(run(&a), Err("invalid --to".to_string()));
}

#[test]
fn nonce_with_a_letter_is_an_invalid_integer() {
    let a = args(Some(ZERO_ADDRESS), "12a", None, "2", "1", "");
    assert_eq!(build_transaction(&a), Err(FieldError::Nonce));
    assert_eq!(FieldError::Nonce.kind(), ParseError::InvalidInteger);
    assert_eq!(run(&a), Err("invalid --nonce".to_string()));
}

#[test]
fn odd_length_calldata_is_invalid_hex() {
    let a = args(Some(ZERO_ADDRESS), "0", None, "2", "1", "abc");
    assert_eq!(build_transaction(&a), Err(FieldError::Calldata));
    assert_eq!(FieldError::Calldata.kind(), ParseError::InvalidHex);
    assert_eq!(run(&a), Err("invalid calldata".to_string()));
}

#[test]
fn each_field_has_its_message_and_kind() {
    let cases = [
        (FieldError::To, "invalid --to", ParseError::InvalidAddress),
        (FieldError::Value, "invalid --value", ParseError::InvalidInteger),
        (FieldError::Gas, "invalid --gas", ParseError::InvalidInteger),
        (FieldError::GasPrice, "invalid --gasprice", ParseError::InvalidInteger),
        (FieldError::Nonce, "invalid --nonce", ParseError::InvalidInteger),
        (FieldError::Calldata, "invalid calldata", ParseError::InvalidHex),
    ];
    for (field, message, kind) in cases {
        assert_eq!(field.message(), message);
        assert_eq!(field.kind(), kind);
    }
}

#[test]
fn each_field_is_reported_when_it_alone_is_wrong() {
    let good = || args(Some(ZERO_ADDRESS), "0", Some("0"), "2", "1", "");
    assert!(build_transaction(&good()).is_ok());

    let mut a = good();
    a.flag_to = Some("zz".to_string());
    assert_eq!(build_transaction(&a), Err(FieldError::To));
    let mut a = good();
    a.flag_value = Some("-1".to_string());
    assert_eq!(build_transaction(&a), Err(FieldError::Value));
    let mut a = good();
    a.flag_gas = String::new();
    assert_eq!(build_transaction(&a), Err(FieldError::Gas));
    let mut a = good();
    a.flag_gasprice = "1e9".to_string();
    assert_eq!(build_transaction(&a), Err(FieldError::GasPrice));
    let mut a = good();
    a.flag_nonce = " 1".to_string();
    assert_eq!(build_transaction(&a), Err(FieldError::Nonce));
    let mut a = good();
    a.arg_calldata = "0xabc".to_string();
    assert_eq!(build_transaction(&a), Err(FieldError::Calldata));
}

#[test]
fn the_first_wrong_field_is_reported() {
    // recipient, value, gas, gas price, nonce, call data
    let mut a = args(Some("0xabcd"), "12a", Some("x"), "", "y", "abc");
    assert_eq!(run(&a), Err("invalid --to".to_string()));
    a.flag_to = None;
    assert_eq!(run(&a), Err("invalid --value".to_string()));
    a.flag_value = None;
    assert_eq!(run(&a), Err("invalid --gas".to_string()));
    a.flag_gas = "21000".to_string();
    assert_eq!(run(&a), Err("invalid --gasprice".to_string()));
    a.flag_gasprice = "1".to_string();
    assert_eq!(run(&a), Err("invalid --nonce".to_string()));
    a.flag_nonce = "12".to_string();
    assert_eq!(run(&a), Err("invalid calldata".to_string()));
    a.arg_calldata = "abcd".to_string();
    assert_eq!(run(&a), Ok(vec![0xca, 0x0c, 0x01, 0x82, 0x52, 0x08, 0x80, 0x80, 0x82, 0xab, 0xcd]));
}

#[test]
fn numbers_of_more_than_256_bits_are_invalid_integers() {
    let limit =
        "115792089237316195423570985008687907853269984665640564039457584007913129639936";
    let a = args(None, "0", Some(limit), "2", "1", "");
    assert_eq!(build_transaction(&a), Err(FieldError::Value));
    let a = args(None, limit, None, "2", "1", "");
    assert_eq!(run(&a), Err("invalid --nonce".to_string()));
}

fn options(nonce: Option<&str>, gas: Option<&str>, gasprice: Option<&str>) -> Options {
    Options {
        to: Some(ZERO_ADDRESS.to_string()),
        nonce: nonce.map(String::from),
        value: None,
        gas: gas.map(String::from),
        gasprice: gasprice.map(String::from),
        calldata: String::new(),
    }
}

#[test]
fn options_with_all_required_become_args() {
    let o = Options {
        to: Some("aa".to_string()),
        nonce: Some("1".to_string()),
        value: Some("2".to_string()),
        gas: Some("3".to_string()),
        gasprice: Some("4".to_string()),
        calldata: "5".to_string(),
    };
    assert_eq!(o.into_args(), Ok(args(Some("aa"), "1", Some("2"), "3", "4", "5")));
    let o = Options {
        to: None,
        nonce: Some(String::new()),
        value: None,
        gas: Some(String::new()),
        gasprice: Some(String::new()),
        calldata: String::new(),
    };
    assert_eq!(o.into_args(), Ok(args(None, "", None, "", "", "")));
}

#[test]
fn the_first_missing_option_is_reported() {
    assert_eq!(options(None, None, None).into_args(), Err(MissingOption::Nonce));
    assert_eq!(options(None, Some("2"), Some("1")).into_args(), Err(MissingOption::Nonce));
    assert_eq!(options(Some("0"), None, None).into_args(), Err(MissingOption::Gas));
    assert_eq!(options(Some("0"), None, Some("1")).into_args(), Err(MissingOption::Gas));
    assert_eq!(options(Some("0"), Some("2"), None).into_args(), Err(MissingOption::GasPrice));
    assert_eq!(MissingOption::Nonce.message(), "missing --nonce");
    assert_eq!(MissingOption::Gas.message(), "missing --gas");
    assert_eq!(MissingOption::GasPrice.message(), "missing --gasprice");
}

#[test]
fn encode_reports_missing_before_invalid() {
    let mut o = options(None, Some("2"), Some("1"));
    o.to = Some("0xabcd".to_string());
    assert_eq!(encode(o.clone()), Err("missing --nonce".to_string()));
    o.nonce = Some("0".to_string());
    assert_eq!(encode(o.clone()), Err("invalid --to".to_string()));
    o.to = None;
    assert_eq!(encode(o), Ok(vec![0xc6, 0x80, 0x01, 0x02, 0x80, 0x80, 0x80]));
}

#[test]
fn encode_gives_the_call_vector() {
    let out = encode(options(Some("0"), Some("2"), Some("1"))).unwrap();
    assert_eq!(to_hex(&out), "da8001029400000000000000000000000000000000000000008080");
    assert_eq!(out.len(), 27);
}
