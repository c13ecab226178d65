//! Calls into std and outside crates whose behaviour Verus takes on trust.
//!
//! Each function here makes one call; its contract says what the called
//! function's documentation or source shows.

use vstd::prelude::*;

use super::crc::crc16_xmodem;
use super::json::{json_reals_ok, reads_back, JsonMember, JsonNumber, JsonValue, JsonView};
use serde_json::Value;

verus! {

/// `crc::Crc::<u16>::new(&CRC_16_XMODEM).checksum(data)`: the CRC-16/XMODEM
/// checksum of the bytes, as `crc16_xmodem` states it (width 16, polynomial
/// 0x1021, initial value 0, no reflection, no final xor: the crate's
/// catalogue entry, whose check value `lemma_crc_check_value` confirms).
#[verifier::external_body]
pub(crate) fn crc16_checksum(data: &[u8]) -> (r: u16)
    ensures
        r == crc16_xmodem(data@),
{
    crc::Crc::<u16>::new(&crc::CRC_16_XMODEM).checksum(data)
}

/// `String::from_utf8`: succeeds exactly on valid UTF-8, and then holds the
/// decoded characters.
#[verifier::external_body]
pub(crate) fn utf8_to_string(bytes: &[u8]) -> (r: Option<String>)
    ensures
        r is Some <==> vstd::utf8::valid_utf8(bytes@),
        r matches Some(s) ==> s@ == vstd::utf8::decode_utf8(bytes@),
{
    String::from_utf8(bytes.to_vec()).ok()
}

/// `Uuid::new_v4`: sixteen random bytes with the version nibble set to 4
/// and the RFC 4122 variant bits set. Which bytes come back is chance.
#[verifier::external_body]
pub(crate) fn random_uuid_bytes() -> (r: [u8; 16])
    ensures
        r@[6] & 0xf0 == 0x40,
        r@[8] & 0xc0 == 0x80,
{
    uuid::Uuid::new_v4().into_bytes()
}

/// What `Uuid::parse_str` makes of a text: the sixteen bytes of the UUID,
/// or the text of its error.
pub uninterp spec fn uuid_parse_result(text: Seq<char>) -> Result<Seq<u8>, Seq<char>>;

/// A parse result taken by its views.
pub open spec fn uuid_result_view(r: Result<[u8; 16], String>) -> Result<Seq<u8>, Seq<char>> {
    match r {
        Ok(b) => Ok(b@),
        Err(m) => Err(m@),
    }
}

/// `Uuid::parse_str`, the UUID taken by its bytes and the error by its text.
#[verifier::external_body]
pub(crate) fn parse_uuid(text: &str) -> (r: Result<[u8; 16], String>)
    ensures
        uuid_result_view(r) == uuid_parse_result(text@),
{
    uuid::Uuid::parse_str(text).map(|u| u.into_bytes()).map_err(|e| e.to_string())
}

/// `String::from_iter` over characters: the string holding exactly `chars`.
#[verifier::external_body]
pub(crate) fn string_from_chars(chars: &[char]) -> (r: String)
    ensures
        r@ == chars@,
{
    chars.iter().collect()
}

/// `str::chars().collect()`: the characters of a string.
#[verifier::external_body]
pub(crate) fn chars_of(s: &str) -> (r: Vec<char>)
    ensures
        r@ == s@,
{
    s.chars().collect()
}


/// The compact JSON text serde_json writes for a value (`Display` for
/// `serde_json::Value`, after `to_serde_value`).
pub uninterp spec fn json_text(v: JsonView) -> Seq<char>;

/// Whether `str::parse::<serde_json::Number>` reads `text` as a number.
pub uninterp spec fn json_number_text_ok(text: Seq<char>) -> bool;

/// What `serde_json::from_str` reads from a text: the value (after
/// `from_serde_value`), or the text of its error.
pub uninterp spec fn json_read_text(text: Seq<char>) -> Result<JsonView, Seq<char>>;

/// What `serde_json::from_slice` reads from bytes: the value (after
/// `from_serde_value`), or the text of its error.
pub uninterp spec fn json_read_bytes(bytes: Seq<u8>) -> Result<JsonView, Seq<char>>;

/// A read result, by views.
pub open spec fn json_result_view(r: Result<JsonValue, String>) -> Result<JsonView, Seq<char>> {
    match r {
        Ok(v) => Ok(v@),
        Err(e) => Err(e@),
    }
}

/// The result of reading `v` back.
pub open spec fn read_ok(v: JsonView) -> Result<JsonView, Seq<char>> {
    Ok(v)
}

/// `serde_json::Value`, the form serde_json reads and writes.
#[verifier::external_type_specification]
#[verifier::external_body]
pub struct ExJsonValue(serde_json::Value);

/// Converts a library JSON number to a `serde_json::Value`; `None` when the
/// text of a `Real` is no number `str::parse` reads.
#[verifier::external_body]
fn number_to_serde(n: &JsonNumber) -> Option<Value> {
    match n {
        JsonNumber::Unsigned(u) => Some(Value::from(*u)),
        JsonNumber::Negative(i) => Some(Value::from(*i)),
        JsonNumber::Real(t) => t.parse().ok().map(Value::Number),
    }
}

/// Converts a library JSON value to a `serde_json::Value`, variant for
/// variant; `None` when the text of a `Real` is no number serde_json reads.
#[verifier::external_body]
fn to_serde_value(v: &JsonValue) -> Option<Value> {
    Some(match v {
        JsonValue::Null => Value::Null,
        JsonValue::Bool(b) => Value::Bool(*b),
        JsonValue::Number(n) => number_to_serde(n)?,
        JsonValue::String(s) => Value::String(s.clone()),
        JsonValue::Array(items) => Value::Array(items.iter().map(to_serde_value).collect::<Option<_>>()?),
        JsonValue::Object(ms) => Value::Object(ms.iter().map(|m| Some((m.key.clone(), to_serde_value(&m.value)?))).collect::<Option<_>>()?),
    })
}

/// Converts a `serde_json::Value` to a library JSON value, variant for
/// variant (a number that `as_u64` reads is `Unsigned`, else one that
/// `as_i64` reads is `Negative`, else its text is kept as `Real`).
#[verifier::external_body]
fn from_serde_value(v: Value) -> JsonValue {
    match v {
        Value::Null => JsonValue::Null,
        Value::Bool(b) => JsonValue::Bool(b),
        Value::Number(n) => JsonValue::Number(match (n.as_u64(), n.as_i64()) {
            (Some(u), _) => JsonNumber::Unsigned(u),
            (None, Some(i)) => JsonNumber::Negative(i),
            (None, None) => JsonNumber::Real(n.to_string()),
        }),
        Value::String(s) => JsonValue::String(s),
        Value::Array(items) => JsonValue::Array(items.into_iter().map(from_serde_value).collect()),
        Value::Object(map) => JsonValue::Object(map.into_iter().map(|(key, value)| JsonMember { key, value: from_serde_value(value) }).collect()),
    }
}

/// `Value::to_string` (compact JSON; `Display` cannot fail on a `Value`):
/// the text named `json_text`, for a value whose `Real` numbers all have
/// texts serde_json reads as numbers (`json_reals_ok`); `None` for any other
/// value, which has no `serde_json::Value`.
#[verifier::external_body]
pub(crate) fn json_write(v: &JsonValue) -> (r: Option<String>)
    ensures
        r is Some <==> json_reals_ok(v@),
        v@ matches JsonView::Real(t) ==> (r is Some <==> json_number_text_ok(t)),
        r matches Some(t) ==> t@ == json_text(v@),
{
    to_serde_value(v).map(|x| x.to_string())
}

/// `serde_json::from_str` into a value; named `json_read_text`.  Also
/// claimed: a text that serde_json wrote for a value that `reads_back`
/// reads back as that value (serde_json parses what it writes: integers,
/// escaped strings, arrays, and objects whose sorted, distinct keys its map
/// keeps in order, within its nesting limit of 128).
#[verifier::external_body]
pub(crate) fn json_read_str(text: &str) -> (r: Result<JsonValue, String>)
    ensures
        json_result_view(r) == json_read_text(text@),
        forall|v: JsonView| reads_back(v) && #[trigger] json_text(v) == text@ ==> json_result_view(r) == read_ok(v),
{
    serde_json::from_str::<Value>(text).map(from_serde_value).map_err(|e| e.to_string())
}

/// `serde_json::from_slice` into a value; named `json_read_bytes`.  Also
/// claimed: the UTF-8 bytes of a text that serde_json wrote for a value that
/// `reads_back` read back as that value (as for `json_read_str`).
#[verifier::external_body]
pub(crate) fn json_read_slice(bytes: &[u8]) -> (r: Result<JsonValue, String>)
    ensures
        json_result_view(r) == json_read_bytes(bytes@),
        forall|v: JsonView| reads_back(v) && vstd::utf8::encode_utf8(#[trigger] json_text(v)) == bytes@ ==> json_result_view(r) == read_ok(v),
{
    serde_json::from_slice::<Value>(bytes).map(from_serde_value).map_err(|e| e.to_string())
}

} // verus!
