//! Payloads as JSON values. The transfer itself moves bytes and knows
//! nothing of what they mean; this is where a value becomes the text that
//! is sent, and received text becomes a value again.

use crate::error::TransferError;
use vstd::prelude::*;

verus! {

/// `serde_json::Value`, a JSON value. Nothing inside it is looked at here.
#[verifier::external_type_specification]
#[verifier::external_body]
pub struct ExValue(serde_json::Value);

/// `serde_json::Error`, the reason why text was not read or written.
/// Nothing inside it is looked at here.
#[verifier::external_type_specification]
#[verifier::external_body]
pub struct ExError(serde_json::Error);

/// Whether `serde_json::from_slice` reads `data` as the text of a value.
pub uninterp spec fn is_json(data: Seq<u8>) -> bool;

/// [`serde_json::from_slice`] at `serde_json::Value`. Whether it succeeds
/// depends on the bytes alone; that much, and no more, is claimed.
#[verifier::external_body]
fn from_slice(data: &[u8]) -> (r: Result<serde_json::Value, serde_json::Error>)
    ensures
        r is Ok <==> is_json(data@),
{
    serde_json::from_slice::<serde_json::Value>(data)
}

/// The text that `serde_json::to_vec` writes for `value`, or `None` where
/// it refuses the value.
pub uninterp spec fn json_text(value: serde_json::Value) -> Option<Seq<u8>>;

/// [`serde_json::to_vec`] at `serde_json::Value`. It walks the value and
/// nothing else, so what it returns depends on the value alone; that much,
/// and no more, is claimed.
#[verifier::external_body]
fn to_vec(value: &serde_json::Value) -> (r: Result<Vec<u8>, serde_json::Error>)
    ensures
        match r {
            Ok(text) => json_text(*value) == Some(text@),
            Err(_) => json_text(*value) is None,
        },
{
    serde_json::to_vec(value)
}

/// The `to_string` of a `serde_json::Error`: its message with the place
/// in the text. Nothing is claimed of the string.
#[verifier::external_body]
fn reason(error: &serde_json::Error) -> (r: String) {
    error.to_string()
}

/// What a transfer reports for the outcome of writing a value as text.
pub fn encoded(written: Result<Vec<u8>, serde_json::Error>) -> (r: Result<Vec<u8>, TransferError>)
    ensures
        match written {
            Ok(text) => r matches Ok(out) && out == text,
            Err(_) => r matches Err(error) && error@ is Serialization,
        },
{
    match written {
        Ok(text) => Ok(text),
        Err(error) => Err(TransferError::Serialization(reason(&error))),
    }
}

/// What a transfer reports for the outcome of reading a payload as text.
pub fn decoded(parsed: Result<serde_json::Value, serde_json::Error>) -> (r: Result<
    serde_json::Value,
    TransferError,
>)
    ensures
        match parsed {
            Ok(value) => r matches Ok(out) && out == value,
            Err(_) => r matches Err(error) && error@ is Serialization,
        },
{
    match parsed {
        Ok(value) => Ok(value),
        Err(error) => Err(TransferError::Serialization(reason(&error))),
    }
}

/// The text of `value`, ready to be sent: the bytes that serde_json
/// writes for it. Fails, with the reason, exactly where serde_json refuses
/// the value.
pub fn encode(value: &serde_json::Value) -> (r: Result<Vec<u8>, TransferError>)
    ensures
        match r {
            Ok(text) => json_text(*value) == Some(text@),
            Err(error) => json_text(*value) is None && error@ is Serialization,
        },
{
    encoded(to_vec(value))
}

/// The value whose text a receive has handed out. Succeeds exactly on the
/// payloads that are the text of a value.
pub fn decode(payload: &[u8]) -> (r: Result<serde_json::Value, TransferError>)
    ensures
        r is Ok <==> is_json(payload@),
        r matches Err(error) ==> error@ is Serialization,
{
    decoded(from_slice(payload))
}

} // verus!
