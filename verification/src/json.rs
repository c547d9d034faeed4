//! Reading values out of JSON text with `serde_json`.
//!
//! Each function parses the text as a JSON document and looks up the value
//! at a JSON pointer (such as `/path`). What `serde_json` returns is a
//! function of the text and the pointer alone; the names below stand for it.
use vstd::prelude::*;

verus! {

/// The string at `pointer` in the JSON document `json`; `None` when the
/// text is not JSON, nothing is there, or the value is not a string.
pub uninterp spec fn json_str_at(json: Seq<char>, pointer: Seq<char>) -> Option<Seq<char>>;

/// The integer at `pointer`, when it is a JSON number that fits in `i64`.
pub uninterp spec fn json_i64_at(json: Seq<char>, pointer: Seq<char>) -> Option<i64>;

/// The integer at `pointer`, when it is a JSON number that fits in `u64`.
pub uninterp spec fn json_u64_at(json: Seq<char>, pointer: Seq<char>) -> Option<u64>;

/// The boolean at `pointer`, when it is a JSON `true` or `false`.
pub uninterp spec fn json_bool_at(json: Seq<char>, pointer: Seq<char>) -> Option<bool>;

/// Whether the document has a value (of any kind) at `pointer`.
pub uninterp spec fn json_present_at(json: Seq<char>, pointer: Seq<char>) -> bool;

/// The parse error of `json` as `serde_json` displays it, or `None` when
/// the text is a JSON document.
pub uninterp spec fn json_parse_error(json: Seq<char>) -> Option<Seq<char>>;

/// The characters of an optional string.
pub open spec fn opt_view(o: Option<String>) -> Option<Seq<char>> {
    match o {
        Some(s) => Some(s@),
        None => None,
    }
}

/// `serde_json::from_str::<Value>`, then `Value::pointer`, then `Value::as_str`.
#[verifier::external_body]
pub(crate) fn json_str(json: &str, pointer: &str) -> (r: Option<String>)
    ensures
        opt_view(r) == json_str_at(json@, pointer@),
{
    let v: serde_json::Value = serde_json::from_str(json).ok()?;
    v.pointer(pointer)?.as_str().map(|s| s.to_string())
}

/// `serde_json::from_str::<Value>`, then `Value::pointer`, then `Value::as_i64`.
#[verifier::external_body]
pub(crate) fn json_i64(json: &str, pointer: &str) -> (r: Option<i64>)
    ensures
        r == json_i64_at(json@, pointer@),
{
    let v: serde_json::Value = serde_json::from_str(json).ok()?;
    v.pointer(pointer)?.as_i64()
}

/// `serde_json::from_str::<Value>`, then `Value::pointer`, then `Value::as_u64`.
#[verifier::external_body]
pub(crate) fn json_u64(json: &str, pointer: &str) -> (r: Option<u64>)
    ensures
        r == json_u64_at(json@, pointer@),
{
    let v: serde_json::Value = serde_json::from_str(json).ok()?;
    v.pointer(pointer)?.as_u64()
}

/// `serde_json::from_str::<Value>`, then `Value::pointer`, then `Value::as_bool`.
#[verifier::external_body]
pub(crate) fn json_bool(json: &str, pointer: &str) -> (r: Option<bool>)
    ensures
        r == json_bool_at(json@, pointer@),
{
    let v: serde_json::Value = serde_json::from_str(json).ok()?;
    v.pointer(pointer)?.as_bool()
}

/// `serde_json::from_str::<Value>`, then whether `Value::pointer` finds a value.
#[verifier::external_body]
pub(crate) fn json_present(json: &str, pointer: &str) -> (r: bool)
    ensures
        r == json_present_at(json@, pointer@),
{
    match serde_json::from_str::<serde_json::Value>(json) {
        Ok(v) => v.pointer(pointer).is_some(),
        Err(_) => false,
    }
}

/// `serde_json::from_str::<Value>`, with its error displayed as text.
#[verifier::external_body]
pub(crate) fn json_error(json: &str) -> (r: Option<String>)
    ensures
        opt_view(r) == json_parse_error(json@),
{
    match serde_json::from_str::<serde_json::Value>(json) {
        Ok(_) => None,
        Err(e) => Some(e.to_string()),
    }
}

} // verus!
