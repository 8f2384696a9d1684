//! Reading fields of JSON messages. The parsing is done by `serde_json`; the
//! library names what it returns and reasons over those names.
use vstd::prelude::*;

verus! {

/// The string at `pointer` (RFC 6901) in the JSON text `message`; `None`
/// when the text is not JSON or holds no string there.
pub uninterp spec fn json_text(message: Seq<char>, pointer: Seq<char>) -> Option<Seq<char>>;

/// Whether the JSON text `message` holds a value at `pointer`.
pub uninterp spec fn json_present(message: Seq<char>, pointer: Seq<char>) -> bool;

/// The boolean at `pointer` in the JSON text `message`.
pub uninterp spec fn json_flag(message: Seq<char>, pointer: Seq<char>) -> Option<bool>;

pub open spec fn opt_string(o: Option<String>) -> Option<Seq<char>> {
    match o {
        Some(s) => Some(s@),
        None => None,
    }
}

/// Parses `message` with `serde_json::from_str` and reads the string at
/// `pointer` with `Value::pointer` and `Value::as_str`; the result is named
/// by `json_text`, nothing more is claimed.
#[verifier::external_body]
pub(crate) fn json_str_at(message: &str, pointer: &str) -> (r: Option<String>)
    ensures
        opt_string(r) == json_text(message@, pointer@),
{
    serde_json::from_str::<serde_json::Value>(message).ok()?.pointer(pointer)?.as_str().map(str::to_owned)
}

/// Parses `message` with `serde_json::from_str` and tells whether
/// `Value::pointer` finds a value at `pointer`; named by `json_present`.
#[verifier::external_body]
pub(crate) fn json_has(message: &str, pointer: &str) -> (r: bool)
    ensures
        r == json_present(message@, pointer@),
{
    serde_json::from_str::<serde_json::Value>(message).ok().is_some_and(|v| v.pointer(pointer).is_some())
}

/// Parses `message` with `serde_json::from_str` and reads the boolean at
/// `pointer` with `Value::pointer` and `Value::as_bool`; named by `json_flag`.
#[verifier::external_body]
pub(crate) fn json_bool_at(message: &str, pointer: &str) -> (r: Option<bool>)
    ensures
        r == json_flag(message@, pointer@),
{
    serde_json::from_str::<serde_json::Value>(message).ok()?.pointer(pointer)?.as_bool()
}

/// The unsigned number at `pointer` in the JSON text `message`.
pub uninterp spec fn json_unsigned(message: Seq<char>, pointer: Seq<char>) -> Option<u64>;

/// The length of the array at `pointer` in the JSON text `message`.
pub uninterp spec fn json_array_len(message: Seq<char>, pointer: Seq<char>) -> Option<nat>;

/// Why `serde_json` rejects the text `message`; `None` when it is JSON.
pub uninterp spec fn json_rejection(message: Seq<char>) -> Option<Seq<char>>;

/// Parses `message` with `serde_json::from_str` and reads the number at
/// `pointer` with `Value::pointer` and `Value::as_u64`; named by `json_unsigned`.
#[verifier::external_body]
pub(crate) fn json_u64_at(message: &str, pointer: &str) -> (r: Option<u64>)
    ensures
        r == json_unsigned(message@, pointer@),
{
    serde_json::from_str::<serde_json::Value>(message).ok()?.pointer(pointer)?.as_u64()
}

/// Parses `message` with `serde_json::from_str` and reads the length of the
/// array at `pointer` with `Value::pointer` and `Value::as_array`; named by
/// `json_array_len`.
#[verifier::external_body]
pub(crate) fn json_len_at(message: &str, pointer: &str) -> (r: Option<usize>)
    ensures
        match r {
            Some(n) => json_array_len(message@, pointer@) == Some(n as nat),
            None => json_array_len(message@, pointer@).is_none(),
        },
{
    serde_json::from_str::<serde_json::Value>(message).ok()?.pointer(pointer)?.as_array().map(Vec::len)
}

/// Parses `message` with `serde_json::from_str::<Value>` and returns the
/// error's text when it fails; named by `json_rejection`.
#[verifier::external_body]
pub(crate) fn json_error(message: &str) -> (r: Option<String>)
    ensures
        opt_string(r) == json_rejection(message@),
{
    serde_json::from_str::<serde_json::Value>(message).err().map(|error| error.to_string())
}

} // verus!
