//! Reading a payload as a telemetry tree, with `serde_json`.
//!
//! Nothing here is proved of `serde_json`: the two functions marked
//! `external_body` call it, and their contracts are taken on trust.

use vstd::prelude::*;
use crate::number::Number;
use crate::tree::{Json, Tree};
use serde_json::Value;

verus! {

#[verifier::external_type_specification]
#[verifier::external_body]
pub struct ExJsonValue(serde_json::Value);

#[verifier::external_type_specification]
#[verifier::external_body]
pub struct ExJsonError(serde_json::Error);

/// The document that `serde_json::from_slice` reads from a byte string, as
/// the model of a tree; nothing where it reads none.
pub uninterp spec fn json_document(bytes: Seq<u8>) -> Option<Json>;

/// What a `serde_json::Value` holds, as the model of a tree: the members of
/// an object in the order in which the value hands them out, an integer as
/// `PosInt` where it fits `u64` and else as `NegInt`, and any other number
/// as the bits of its binary64 value.
pub uninterp spec fn tree_of(v: serde_json::Value) -> Json;

/// `serde_json::from_slice::<serde_json::Value>`. Trusted: the call gives a
/// value exactly where the bytes are a JSON document, and the value holds
/// that document; the same bytes always read the same.
#[verifier::external_body]
fn decode(bytes: &[u8]) -> (r: Result<serde_json::Value, serde_json::Error>)
    ensures
        match r {
            Ok(v) => json_document(bytes@) == Some(tree_of(v)),
            Err(_) => json_document(bytes@) is None,
        },
{
    serde_json::from_slice::<serde_json::Value>(bytes)
}

/// Moves a `serde_json::Value` into a `Tree`, variant by variant; a number
/// goes by `Number::as_u64`, `Number::as_i64` and `Number::as_f64` of
/// `serde_json`. Trusted: the tree holds what the value held.
#[verifier::external_body]
fn lift(v: serde_json::Value) -> (t: Tree)
    ensures
        t@ == tree_of(v),
{
    match v {
        Value::Null => Tree::Null,
        Value::Bool(b) => Tree::Bool(b),
        Value::Number(n) => Tree::Number(match (n.as_u64(), n.as_i64()) {
            (Some(u), _) => Number::PosInt(u),
            (_, Some(i)) => Number::NegInt(i),
            _ => Number::Float(n.as_f64().unwrap_or_default().to_bits()),
        }),
        Value::String(s) => Tree::String(s),
        Value::Array(a) => Tree::Array(a.into_iter().map(lift).collect()),
        Value::Object(m) => Tree::Object(m.into_iter().map(|(k, x)| (k, lift(x))).collect()),
    }
}

/// Reads a payload as a telemetry tree; nothing where the payload is no
/// JSON document.
pub fn parse_report(payload: &[u8]) -> (r: Option<Tree>)
    ensures
        match r {
            Some(t) => json_document(payload@) == Some(t@),
            None => json_document(payload@) is None,
        },
{
    match decode(payload) {
        Ok(v) => Some(lift(v)),
        Err(_) => None,
    }
}

} // verus!
