//! The codec between the values that the ledger stores (`casper_types::StoredValue`)
//! and their external form, `ExternalStoredValue`, in which a contract's Wasm is base-16
//! text. Every other variant is carried across unchanged, and no variant turns
//! into another.

use vstd::prelude::*;
use casper_types::account::Account;
use casper_types::bytesrepr::ToBytes;
use casper_types::system::auction::{Bid, EraInfo, UnbondingPurse};
use casper_types::{CLValue, Contract, ContractPackage, ContractWasm, DeployInfo, Transfer};
use casper_types::StoredValue as EngineValue;
use crate::hex::{hex_decode, hex_lower, is_hex_text, lemma_hex_round_trip};

verus! {

/// `casper_types::StoredValue`, with its variants visible, so that the codec can
/// match on them.
#[verifier::external_type_specification]
pub struct ExEngineValue(casper_types::StoredValue);

/// `casper_types::CLValue`, carried through unchanged.
#[verifier::external_type_specification]
#[verifier::external_body]
pub struct ExCLValue(casper_types::CLValue);

/// `casper_types::account::Account`, carried through unchanged.
#[verifier::external_type_specification]
#[verifier::external_body]
pub struct ExAccount(casper_types::account::Account);

/// `casper_types::ContractWasm`, read and written only through its binary form.
#[verifier::external_type_specification]
#[verifier::external_body]
pub struct ExContractWasm(casper_types::ContractWasm);

/// `casper_types::Contract`, carried through unchanged.
#[verifier::external_type_specification]
#[verifier::external_body]
pub struct ExContract(casper_types::Contract);

/// `casper_types::ContractPackage`, carried through unchanged.
#[verifier::external_type_specification]
#[verifier::external_body]
pub struct ExContractPackage(casper_types::ContractPackage);

/// `casper_types::Transfer`, carried through unchanged.
#[verifier::external_type_specification]
#[verifier::external_body]
pub struct ExTransfer(casper_types::Transfer);

/// `casper_types::DeployInfo`, carried through unchanged.
#[verifier::external_type_specification]
#[verifier::external_body]
pub struct ExDeployInfo(casper_types::DeployInfo);

/// `casper_types::system::auction::EraInfo`, carried through unchanged.
#[verifier::external_type_specification]
#[verifier::external_body]
pub struct ExEraInfo(casper_types::system::auction::EraInfo);

/// `casper_types::system::auction::Bid`, carried through unchanged.
#[verifier::external_type_specification]
#[verifier::external_body]
pub struct ExBid(casper_types::system::auction::Bid);

/// `casper_types::system::auction::UnbondingPurse`, carried through unchanged.
#[verifier::external_type_specification]
#[verifier::external_body]
pub struct ExUnbondingPurse(casper_types::system::auction::UnbondingPurse);

/// `casper_types::bytesrepr::Error`, the failure of serializing a Wasm.
#[verifier::external_type_specification]
#[verifier::external_body]
pub struct ExBytesreprError(casper_types::bytesrepr::Error);

/// The contract Wasm that bytes hold in casper_types' binary form, when they
/// hold exactly one.
pub uninterp spec fn wasm_of_bytes(b: Seq<u8>) -> Option<ContractWasm>;

/// Relies on casper_types' `ToBytes` for `ContractWasm` (a length-prefixed byte
/// string), whose output `bytesrepr::deserialize` reads back as the same Wasm.
#[verifier::external_body]
fn contract_wasm_to_bytes(w: &ContractWasm) -> (r: Result<Vec<u8>, casper_types::bytesrepr::Error>)
    ensures
        r matches Ok(b) ==> wasm_of_bytes(b@) == Some(*w),
{
    w.to_bytes()
}

/// Relies on `casper_types::bytesrepr::deserialize::<ContractWasm>`: the Wasm
/// that the whole of `b` holds, or nothing.
#[verifier::external_body]
fn contract_wasm_from_bytes(b: Vec<u8>) -> (r: Option<ContractWasm>)
    ensures
        r == wasm_of_bytes(b@),
{
    casper_types::bytesrepr::deserialize::<ContractWasm>(b).ok()
}

/// Relies on `base16::encode_lower`: two lowercase digits per byte, high nibble
/// first.
#[verifier::external_body]
fn encode_lower(b: &Vec<u8>) -> (r: String)
    ensures
        r@ == hex_lower(b@),
{
    base16::encode_lower(b)
}

/// Relies on `base16::decode`: text of an even number of digits `[0-9a-fA-F]`
/// decodes, two digits per byte, high nibble first; other text is refused.
#[verifier::external_body]
fn decode_hex(s: &String) -> (r: Option<Vec<u8>>)
    ensures
        r is Some <==> is_hex_text(s@),
        r matches Some(v) ==> v@ == hex_decode(s@),
{
    base16::decode(s).ok()
}

/// Why a value could not be converted.
#[derive(Clone, Copy, Debug, PartialEq, Eq)]
pub enum CodecError {
    /// The Wasm of a contract could not be serialized.
    Serialization,
    /// The Wasm text of an external value is not base-16.
    InvalidHex,
    /// The Wasm text of an external value does not hold one serialized Wasm.
    InvalidWasm,
}

/// A value stored in global state, in its external form.
#[derive(Debug)]
pub enum ExternalStoredValue {
    /// A typed ledger value.
    CLValue(CLValue),
    /// An account.
    Account(Account),
    /// A contract's Wasm, as lowercase base-16 text of its serialized form.
    ContractWasm(String),
    /// Methods and type signatures supported by a contract.
    Contract(Contract),
    /// A contract definition, metadata, and security container.
    ContractPackage(ContractPackage),
    /// A record of a transfer.
    Transfer(Transfer),
    /// A record of a deploy.
    DeployInfo(DeployInfo),
    /// Auction metadata of an era.
    EraInfo(EraInfo),
    /// A bid.
    Bid(Box<Bid>),
    /// A withdrawal.
    Withdraw(Vec<UnbondingPurse>),
}

/// `e` is an external form of `v`: the same variant holding the same value,
/// a Wasm as base-16 text of bytes that hold it.
pub open spec fn is_external_form(v: EngineValue, e: ExternalStoredValue) -> bool {
    match (v, e) {
        (EngineValue::CLValue(a), ExternalStoredValue::CLValue(b)) => a == b,
        (EngineValue::Account(a), ExternalStoredValue::Account(b)) => a == b,
        (EngineValue::ContractWasm(w), ExternalStoredValue::ContractWasm(s)) => is_hex_text(s@)
            && wasm_of_bytes(hex_decode(s@)) == Some(w),
        (EngineValue::Contract(a), ExternalStoredValue::Contract(b)) => a == b,
        (EngineValue::ContractPackage(a), ExternalStoredValue::ContractPackage(b)) => a == b,
        (EngineValue::Transfer(a), ExternalStoredValue::Transfer(b)) => a == b,
        (EngineValue::DeployInfo(a), ExternalStoredValue::DeployInfo(b)) => a == b,
        (EngineValue::EraInfo(a), ExternalStoredValue::EraInfo(b)) => a == b,
        (EngineValue::Bid(a), ExternalStoredValue::Bid(b)) => a == b,
        (EngineValue::Withdraw(a), ExternalStoredValue::Withdraw(b)) => a == b,
        _ => false,
    }
}

/// `e` can be read back: its Wasm text, if any, is base-16 of one serialized Wasm.
pub open spec fn is_readable(e: ExternalStoredValue) -> bool {
    match e {
        ExternalStoredValue::ContractWasm(s) => is_hex_text(s@) && wasm_of_bytes(hex_decode(s@)) is Some,
        _ => true,
    }
}

/// `v` is the stored value that the external form `e` reads back as.
pub open spec fn reads_back_as(e: ExternalStoredValue, v: EngineValue) -> bool {
    match e {
        ExternalStoredValue::ContractWasm(s) => v == EngineValue::ContractWasm(
            wasm_of_bytes(hex_decode(s@)).unwrap(),
        ),
        _ => is_external_form(v, e),
    }
}

impl ExternalStoredValue {
    /// The external form of a stored value. Fails only where a contract's Wasm
    /// cannot be serialized.
    pub fn try_from(value: EngineValue) -> (r: Result<ExternalStoredValue, CodecError>)
        ensures
            match r {
                Ok(e) => is_external_form(value, e),
                Err(err) => err == CodecError::Serialization && value is ContractWasm,
            },
    {
        match value {
            EngineValue::CLValue(x) => Ok(ExternalStoredValue::CLValue(x)),
            EngineValue::Account(x) => Ok(ExternalStoredValue::Account(x)),
            EngineValue::ContractWasm(w) => {
                match contract_wasm_to_bytes(&w) {
                    Ok(bytes) => {
                        let text = encode_lower(&bytes);
                        proof {
                            lemma_hex_round_trip(bytes@);
                        }
                        Ok(ExternalStoredValue::ContractWasm(text))
                    },
                    Err(_) => Err(CodecError::Serialization),
                }
            },
            EngineValue::Contract(x) => Ok(ExternalStoredValue::Contract(x)),
            EngineValue::ContractPackage(x) => Ok(ExternalStoredValue::ContractPackage(x)),
            EngineValue::Transfer(x) => Ok(ExternalStoredValue::Transfer(x)),
            EngineValue::DeployInfo(x) => Ok(ExternalStoredValue::DeployInfo(x)),
            EngineValue::EraInfo(x) => Ok(ExternalStoredValue::EraInfo(x)),
            EngineValue::Bid(x) => Ok(ExternalStoredValue::Bid(x)),
            EngineValue::Withdraw(x) => Ok(ExternalStoredValue::Withdraw(x)),
        }
    }

    /// The stored value that this external form stands for.
    pub fn into_engine_value(self) -> (r: EngineValue)
        requires
            is_readable(self),
        ensures
            reads_back_as(self, r),
    {
        match self {
            ExternalStoredValue::CLValue(x) => EngineValue::CLValue(x),
            ExternalStoredValue::Account(x) => EngineValue::Account(x),
            ExternalStoredValue::ContractWasm(s) => {
                let bytes = match decode_hex(&s) {
                    Some(b) => b,
                    None => {
                        proof {
                            assert(false);
                        }
                        Vec::new()
                    },
                };
                match contract_wasm_from_bytes(bytes) {
                    Some(w) => EngineValue::ContractWasm(w),
                    None => {
                        proof {
                            assert(false);
                        }
                        EngineValue::Withdraw(Vec::new())
                    },
                }
            },
            ExternalStoredValue::Contract(x) => EngineValue::Contract(x),
            ExternalStoredValue::ContractPackage(x) => EngineValue::ContractPackage(x),
            ExternalStoredValue::Transfer(x) => EngineValue::Transfer(x),
            ExternalStoredValue::DeployInfo(x) => EngineValue::DeployInfo(x),
            ExternalStoredValue::EraInfo(x) => EngineValue::EraInfo(x),
            ExternalStoredValue::Bid(x) => EngineValue::Bid(x),
            ExternalStoredValue::Withdraw(x) => EngineValue::Withdraw(x),
        }
    }

    /// The stored value that this external form stands for, or why its Wasm
    /// text cannot be read back.
    pub fn try_into_engine_value(self) -> (r: Result<EngineValue, CodecError>)
        ensures
            match r {
                Ok(v) => is_readable(self) && reads_back_as(self, v),
                Err(err) => {
                    &&& !is_readable(self)
                    &&& self matches ExternalStoredValue::ContractWasm(s)
                    &&& err == if is_hex_text(s@) {
                        CodecError::InvalidWasm
                    } else {
                        CodecError::InvalidHex
                    }
                },
            },
    {
        if let ExternalStoredValue::ContractWasm(s) = &self {
            match decode_hex(s) {
                Some(bytes) => {
                    if contract_wasm_from_bytes(bytes).is_none() {
                        return Err(CodecError::InvalidWasm);
                    }
                },
                None => {
                    return Err(CodecError::InvalidHex);
                },
            }
        }
        Ok(self.into_engine_value())
    }
}

/// Reading back the external form of a stored value gives that value again.
pub proof fn lemma_round_trip(v: EngineValue, e: ExternalStoredValue, w: EngineValue)
    requires
        is_external_form(v, e),
        reads_back_as(e, w),
    ensures
        is_readable(e),
        w == v,
{
}

} // verus!
