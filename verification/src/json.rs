//! Reading values out of a JSON text with `serde_json`: each read parses the
//! text into a `serde_json::Value` and looks one value up by a JSON pointer
//! (RFC 6901). What a read gives back is a function of the text and the
//! pointer alone, and is named here.
use vstd::prelude::*;
use crate::fmt::{opt_view, strings_view};

verus! {

/// The error text of `serde_json` for a JSON text that does not parse, or
/// `None` when it parses.
pub uninterp spec fn json_parse_error(json: Seq<char>) -> Option<Seq<char>>;

/// The string found at a JSON pointer in a JSON text, when the text parses
/// and the value there is a string.
pub uninterp spec fn json_str_at(json: Seq<char>, pointer: Seq<char>) -> Option<Seq<char>>;

/// The integer found at a JSON pointer in a JSON text, when the text parses
/// and the value there is an integer that fits in `i64`.
pub uninterp spec fn json_i64_at(json: Seq<char>, pointer: Seq<char>) -> Option<i64>;

/// The length of the array found at a JSON pointer in a JSON text, when the
/// text parses and the value there is an array.
pub uninterp spec fn json_len_at(json: Seq<char>, pointer: Seq<char>) -> Option<usize>;

/// The keys of the object found at a JSON pointer in a JSON text, in the
/// order the parsed object lists them, when the text parses and the value
/// there is an object.
pub uninterp spec fn json_keys_at(json: Seq<char>, pointer: Seq<char>) -> Option<Seq<Seq<char>>>;

/// Calls `serde_json::from_str::<serde_json::Value>` on `json` and, when it
/// fails, renders the error with its `Display`. Trusted: the result is a
/// function of the text alone.
#[verifier::external_body]
pub(crate) fn json_error_text(json: &str) -> (r: Option<String>)
    ensures
        opt_view(&r) == json_parse_error(json@),
{
    match serde_json::from_str::<serde_json::Value>(json) {
        Ok(_) => None,
        Err(error) => Some(error.to_string()),
    }
}

/// Calls `serde_json::from_str::<serde_json::Value>` on `json`, then
/// `Value::pointer` with `pointer` and `Value::as_str`. Trusted: the result
/// is a function of the two texts alone.
#[verifier::external_body]
pub(crate) fn json_string_at(json: &str, pointer: &str) -> (r: Option<String>)
    ensures
        opt_view(&r) == json_str_at(json@, pointer@),
{
    match serde_json::from_str::<serde_json::Value>(json) {
        Ok(value) => match value.pointer(pointer) {
            Some(found) => found.as_str().map(|s| s.to_owned()),
            None => None,
        },
        Err(_) => None,
    }
}

/// Calls `serde_json::from_str::<serde_json::Value>` on `json`, then
/// `Value::pointer` with `pointer` and `Value::as_i64`. Trusted: the result
/// is a function of the two texts alone.
#[verifier::external_body]
pub(crate) fn json_integer_at(json: &str, pointer: &str) -> (r: Option<i64>)
    ensures
        r == json_i64_at(json@, pointer@),
{
    match serde_json::from_str::<serde_json::Value>(json) {
        Ok(value) => match value.pointer(pointer) {
            Some(found) => found.as_i64(),
            None => None,
        },
        Err(_) => None,
    }
}

/// Calls `serde_json::from_str::<serde_json::Value>` on `json`, then
/// `Value::pointer` with `pointer` and `Value::as_array`, and gives the
/// array's length. Trusted: the result is a function of the two texts alone.
#[verifier::external_body]
pub(crate) fn json_array_len_at(json: &str, pointer: &str) -> (r: Option<usize>)
    ensures
        r == json_len_at(json@, pointer@),
{
    match serde_json::from_str::<serde_json::Value>(json) {
        Ok(value) => match value.pointer(pointer) {
            Some(found) => found.as_array().map(|items| items.len()),
            None => None,
        },
        Err(_) => None,
    }
}

/// Calls `serde_json::from_str::<serde_json::Value>` on `json`, then
/// `Value::pointer` with `pointer`, `Value::as_object` and `Map::keys`.
/// Trusted: the result is a function of the two texts alone (the map keeps
/// an order fixed by its contents, or by the text under `preserve_order`).
#[verifier::external_body]
pub(crate) fn json_object_keys_at(json: &str, pointer: &str) -> (r: Option<Vec<String>>)
    ensures
        match r {
            Some(keys) => json_keys_at(json@, pointer@) == Some(strings_view(keys@)),
            None => json_keys_at(json@, pointer@) is None,
        },
{
    match serde_json::from_str::<serde_json::Value>(json) {
        Ok(value) => match value.pointer(pointer) {
            Some(found) => found.as_object().map(|map| map.keys().cloned().collect()),
            None => None,
        },
        Err(_) => None,
    }
}

/// The reference token of a JSON pointer for an object key: `~` written as
/// `~0` and `/` as `~1`.
pub open spec fn pointer_token(key: Seq<char>) -> Seq<char>
    decreases key.len(),
{
    if key.len() == 0 {
        Seq::empty()
    } else {
        let c = key.last();
        pointer_token(key.drop_last()) + if c == '~' {
            seq!['~', '0']
        } else if c == '/' {
            seq!['~', '1']
        } else {
            seq![c]
        }
    }
}

/// Appends the reference token of `key` to `out`.
pub fn push_pointer_token(out: &mut Vec<char>, key: &str)
    ensures
        final(out)@ == old(out)@ + pointer_token(key@),
{
    let k = crate::text::chars_of(key);
    let ghost start = out@;
    let mut i: usize = 0;
    while i < k.len()
        invariant
            i <= k@.len(),
            k@ == key@,
            out@ == start + pointer_token(k@.take(i as int)),
        decreases k@.len() - i,
    {
        let c = k[i];
        proof {
            assert(k@.take(i + 1).drop_last() =~= k@.take(i as int));
            assert(k@.take(i + 1).last() == c);
        }
        if c == '~' {
            out.push('~');
            out.push('0');
        } else if c == '/' {
            out.push('~');
            out.push('1');
        } else {
            out.push(c);
        }
        i = i + 1;
        assert(out@ =~= start + pointer_token(k@.take(i as int)));
    }
    assert(k@.take(k@.len() as int) =~= k@);
}

} // verus!
