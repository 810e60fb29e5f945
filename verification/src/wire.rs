//! The key-value encoding as text: reading it is the work of `serde_json`.
use vstd::prelude::*;
use serde_json::Value;
use vstd::string::StringSliceAdditionalSpecFns;
use crate::error::Error;
use crate::json::Json;
use crate::json::Number;
use crate::json::Tree;

verus! {

#[verifier::external_type_specification]
#[verifier::external_body]
pub struct ExValue(serde_json::Value);

/// The document that a value of `serde_json` holds.
pub uninterp spec fn tree_of(v: serde_json::Value) -> Tree;

/// The document that `serde_json` reads from a text; `None` where it reads
/// none.
pub uninterp spec fn parsed(text: Seq<char>) -> Option<Tree>;

/// Calls `serde_json::from_str` for a `serde_json::Value`. What it reads is a
/// function of the text alone and is given the name `parsed`: the document
/// that the value holds where the call succeeds, none where it fails.
#[verifier::external_body]
pub(crate) fn parse_text(text: &str) -> (r: Option<serde_json::Value>)
    ensures
        match r {
            Some(v) => parsed(text@) == Some(tree_of(v)),
            None => parsed(text@) is None,
        },
{
    serde_json::from_str::<Value>(text).ok()
}

/// Converts a `serde_json::Value` to a [`Json`], variant by variant: a
/// number by `as_u64`, else `as_i64`, else the bits of `as_f64`; the entries
/// of a record in the order in which its map hands them out, which is the
/// order of their keys. The result
/// holds the document that the value holds, which this names.
#[verifier::external_body]
pub(crate) fn lift(v: &serde_json::Value) -> (r: Json)
    ensures
        r@ == tree_of(*v),
{
    match v {
        Value::Null => Json::Null,
        Value::Bool(b) => Json::Bool(*b),
        Value::Number(n) => Json::Number(
            n.as_u64().map(Number::PosInt).or(n.as_i64().map(Number::NegInt)).unwrap_or(
                Number::Float(n.as_f64().map(|x| x.to_bits()).unwrap_or_default()),
            ),
        ),
        Value::String(s) => Json::Text(s.clone()),
        Value::Array(a) => Json::Array(a.iter().map(lift).collect()),
        Value::Object(m) => Json::Object(m.iter().map(|e| (e.0.clone(), lift(e.1))).collect()),
    }
}

/// Whether `n` bytes at the start of `bytes` are UTF-8 and no more of them
/// are.
pub open spec fn longest_valid_prefix(bytes: Seq<u8>, n: int) -> bool {
    &&& 0 <= n <= bytes.len()
    &&& vstd::utf8::valid_utf8(bytes.take(n))
    &&& forall|m: int| n < m <= bytes.len() ==> !vstd::utf8::valid_utf8(#[trigger] bytes.take(m))
}

/// The length of the invalid sequence at which bytes stop to be UTF-8, as
/// `Utf8Error::error_len` gives it; `None` where they end too early, or are
/// UTF-8.
pub uninterp spec fn invalid_length(bytes: Seq<u8>) -> Option<usize>;

/// Whether `e` is the failure of bytes that are not UTF-8.
pub open spec fn utf8_failure(bytes: Seq<u8>, e: Error) -> bool {
    &&& e is Utf8Error
    &&& longest_valid_prefix(bytes, e->valid_up_to as int)
    &&& e->error_len == invalid_length(bytes)
}

/// Calls `std::str::from_utf8`: the text whose bytes these are where they
/// are UTF-8, and else `valid_up_to` of the error, the length of their
/// longest beginning that is, with its `error_len`.
#[verifier::external_body]
pub(crate) fn text_of_bytes(bytes: &[u8]) -> (r: Result<&str, (usize, Option<usize>)>)
    ensures
        match r {
            Ok(text) => vstd::utf8::valid_utf8(bytes@) && text.spec_bytes() == bytes@,
            Err(failure) => !vstd::utf8::valid_utf8(bytes@) && longest_valid_prefix(
                bytes@,
                failure.0 as int,
            ) && failure.1 == invalid_length(bytes@),
        },
{
    match std::str::from_utf8(bytes) {
        Ok(text) => Ok(text),
        Err(e) => Err((e.valid_up_to(), e.error_len())),
    }
}

} // verus!
