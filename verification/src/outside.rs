//! The calls this library makes into other crates, with what it relies on of each.
use sha2::Digest;
use std::str::FromStr;
use vstd::prelude::*;

use serde_json::Value;

use crate::json::{Json, JsonView};
use crate::model::Timestamp;
use crate::text::{ascii_lowered, is_ascii_text, same_ignoring_ascii_case};

verus! {

/// The lowercase hexadecimal SHA-256 digest of a byte string.
pub uninterp spec fn sha256_hex(bytes: Seq<u8>) -> Seq<char>;

/// The 32 bytes a base58 account address decodes to, if it is one.
pub uninterp spec fn base58_pubkey(text: Seq<char>) -> Option<Seq<u8>>;

/// Unicode lowercasing of a string.
pub uninterp spec fn lowercase(text: Seq<char>) -> Seq<char>;

/// A fresh random identifier: `uuid::Uuid::new_v4` in its hyphenated text form.
/// Stated: the form is 36 characters long. Nothing is stated of which
/// identifier comes back, which is random.
#[verifier::external_body]
pub(crate) fn new_uuid() -> (r: String)
    ensures
        r@.len() == 36,
{
    uuid::Uuid::new_v4().to_string()
}

/// The current time, from `chrono::Utc::now`. Nothing is stated of it: it is the clock's.
#[verifier::external_body]
pub(crate) fn utc_now() -> (r: Timestamp) {
    let now = chrono::Utc::now();
    Timestamp { seconds: now.timestamp(), nanos: now.timestamp_subsec_nanos() }
}

/// `sha2::Sha256::digest` of `bytes`, written as 64 lowercase hexadecimal digits
/// (the `LowerHex` form of the digest array). Stated: the result is `sha256_hex`
/// of the bytes, 64 characters long.
#[verifier::external_body]
pub(crate) fn sha256_hex_of(bytes: &[u8]) -> (r: String)
    ensures
        r@ == sha256_hex(bytes@),
        r@.len() == 64,
{
    format!("{:x}", sha2::Sha256::digest(bytes))
}

/// `solana_sdk::pubkey::Pubkey::from_str`: base58-decodes an account address.
/// Stated: the outcome is `base58_pubkey` of the text; an address is 32 bytes;
/// text longer than 44 characters (hence longer than 44 bytes) is refused.
#[verifier::external_body]
pub(crate) fn parse_pubkey(text: &str) -> (r: Option<Vec<u8>>)
    ensures
        match r {
            Some(b) => base58_pubkey(text@) == Some(b@),
            None => base58_pubkey(text@) is None,
        },
        r matches Some(b) ==> b@.len() == 32,
        text@.len() > 44 ==> r is None,
{
    match solana_sdk::pubkey::Pubkey::from_str(text) {
        Ok(key) => Some(key.to_bytes().to_vec()),
        Err(_) => None,
    }
}

/// `str::to_lowercase`. Stated: the result is `lowercase` of the text, and any
/// text that differs from it only in the case of ASCII letters lowercases to the
/// same result (each character is mapped on its own, ASCII `A`-`Z` to `a`-`z`;
/// the one rule that looks at neighbours, final sigma, asks only whether they
/// are cased letters, which an ASCII letter is in either case). ASCII text
/// lowercases to itself with `A`-`Z` turned into `a`-`z`.
#[verifier::external_body]
pub(crate) fn to_lowercase(text: &str) -> (r: String)
    ensures
        r@ == lowercase(text@),
        forall|t: Seq<char>| same_ignoring_ascii_case(t, text@) ==> #[trigger] lowercase(t) == r@,
        is_ascii_text(text@) ==> r@ == ascii_lowered(text@),
{
    text.to_lowercase()
}

/// A JSON document as `serde_json` holds it.
#[verifier::external_type_specification]
#[verifier::external_body]
pub struct ExJsonValue(serde_json::Value);

/// The JSON value a text parses to, if it is JSON.
pub uninterp spec fn json_parse(text: Seq<char>) -> Option<JsonView>;

/// The compact JSON bytes of a value, if its numbers can be written.
pub uninterp spec fn json_encode(value: JsonView) -> Option<Seq<u8>>;

/// `serde_json::from_str` into a `serde_json::Value`, then that value turned
/// into a `Json` variant by variant (a number by its `Display` text, an object's
/// fields in the map's order). Stated: the outcome is `json_parse` of the text.
#[verifier::external_body]
pub(crate) fn parse_json(text: &str) -> (r: Option<Json>)
    ensures
        match r {
            Some(j) => json_parse(text@) == Some(j.deep_view()),
            None => json_parse(text@) is None,
        },
{
    match serde_json::from_str::<Value>(text) {
        Ok(value) => Some(json_from_value(value)),
        Err(_) => None,
    }
}

/// A `serde_json::Value` turned into a `Json`, one variant for one variant.
/// Nothing is stated of it alone: `parse_json` states what the two calls give.
#[verifier::external_body]
fn json_from_value(value: Value) -> Json {
    match value {
        Value::Null => Json::Null,
        Value::Bool(b) => Json::Bool(b),
        Value::Number(n) => Json::Number(n.to_string()),
        Value::String(s) => Json::Str(s),
        Value::Array(items) => Json::Array(items.into_iter().map(json_from_value).collect()),
        Value::Object(fields) => Json::Object(fields.into_iter().map(|(k, v)| (k, json_from_value(v))).collect()),
    }
}

/// A `Json` turned back into a `serde_json::Value` (a number read back from its
/// text with `serde_json::Number::from_str`), then `serde_json::to_vec`.
/// Stated: the outcome is `json_encode` of the value; `None` where a number's
/// text is not a JSON number.
#[verifier::external_body]
pub(crate) fn encode_json(value: &Json) -> (r: Option<Vec<u8>>)
    ensures
        match r {
            Some(b) => json_encode(value.deep_view()) == Some(b@),
            None => json_encode(value.deep_view()) is None,
        },
{
    match json_to_value(value) {
        Some(v) => serde_json::to_vec(&v).ok(),
        None => None,
    }
}

/// A `Json` turned into a `serde_json::Value`, one variant for one variant;
/// `None` where a number's text does not read back as a JSON number.
/// Nothing is stated of it alone: `encode_json` states what the calls give.
#[verifier::external_body]
fn json_to_value(json: &Json) -> Option<Value> {
    match json {
        Json::Null => Some(Value::Null),
        Json::Bool(b) => Some(Value::Bool(*b)),
        Json::Number(text) => serde_json::Number::from_str(text).ok().map(Value::Number),
        Json::Str(s) => Some(Value::String(s.clone())),
        Json::Array(items) => items.iter().map(json_to_value).collect::<Option<Vec<Value>>>().map(Value::Array),
        Json::Object(fields) => fields.iter().map(|(k, v)| json_to_value(v).map(|v| (k.clone(), v))).collect::<Option<serde_json::Map<String, Value>>>().map(Value::Object),
    }
}

/// Whether a character may stand in an HTTP header value: a visible ASCII
/// character, a space or a tab, or any character beyond ASCII.
pub open spec fn header_char(c: char) -> bool {
    ((c as int) >= 32 && (c as int) != 127) || c == '\t'
}

/// `axum::http::HeaderValue::from_str` succeeds. Stated: it does exactly when
/// every character may stand in a header value (the crate checks every UTF-8
/// byte to be at least 32 and not 127, or a tab; the bytes of a character
/// beyond ASCII are all at least 128).
#[verifier::external_body]
pub(crate) fn header_value_valid(text: &str) -> (r: bool)
    ensures
        r == (forall|i: int| 0 <= i < text@.len() ==> header_char(#[trigger] text@[i])),
{
    axum::http::HeaderValue::from_str(text).is_ok()
}

} // verus!
