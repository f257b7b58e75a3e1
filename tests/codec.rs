use casper_core::codec::{CodecError, ExternalStoredValue};
use casper_types::{CLValue, ContractWasm, StoredValue};

#[test]
fn contract_wasm_is_hex_of_its_serialized_form() {
    let value = StoredValue::ContractWasm(ContractWasm::new(vec![0xab, 0x01, 0xff]));
    match ExternalStoredValue::try_from(value) {
        Ok(ExternalStoredValue::ContractWasm(text)) => assert_eq!(text, "03000000ab01ff"),
        other => panic!("unexpected {:?}", other),
    }
}

#[test]
fn contract_wasm_round_trips() {
    let wasm = ContractWasm::new(vec![0, 97, 115, 109, 1, 0, 0, 0]);
    let external = ExternalStoredValue::try_from(StoredValue::ContractWasm(wasm.clone())).unwrap();
    let back = external.try_into_engine_value().unwrap();
    assert_eq!(back, StoredValue::ContractWasm(wasm));
}

#[test]
fn cl_value_round_trips_unchanged() {
    let cl = CLValue::from_t(42u64).unwrap();
    let external = ExternalStoredValue::try_from(StoredValue::CLValue(cl.clone())).unwrap();
    assert!(matches!(&external, ExternalStoredValue::CLValue(c) if *c == cl));
    assert_eq!(external.into_engine_value(), StoredValue::CLValue(cl));
}

#[test]
fn withdraw_round_trips_unchanged() {
    let external = ExternalStoredValue::try_from(StoredValue::Withdraw(vec![])).unwrap();
    assert!(matches!(&external, ExternalStoredValue::Withdraw(v) if v.is_empty()));
    assert_eq!(external.into_engine_value(), StoredValue::Withdraw(vec![]));
}

#[test]
fn uppercase_hex_reads_back() {
    let external = ExternalStoredValue::ContractWasm("03000000AB01FF".to_string());
    let back = external.try_into_engine_value().unwrap();
    assert_eq!(back, StoredValue::ContractWasm(ContractWasm::new(vec![0xab, 0x01, 0xff])));
}

#[test]
fn invalid_hex_is_refused() {
    let external = ExternalStoredValue::ContractWasm("0g".to_string());
    assert_eq!(external.try_into_engine_value().unwrap_err(), CodecError::InvalidHex);
    let odd = ExternalStoredValue::ContractWasm("abc".to_string());
    assert_eq!(odd.try_into_engine_value().unwrap_err(), CodecError::InvalidHex);
}

#[test]
fn hex_that_is_no_wasm_is_refused() {
    let short = ExternalStoredValue::ContractWasm("0500000001".to_string());
    assert_eq!(short.try_into_engine_value().unwrap_err(), CodecError::InvalidWasm);
    let trailing = ExternalStoredValue::ContractWasm("010000000102".to_string());
    assert_eq!(trailing.try_into_engine_value().unwrap_err(), CodecError::InvalidWasm);
}
