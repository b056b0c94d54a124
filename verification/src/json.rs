//! Trusted access to serde_json's document model.
//!
//! The protocol's documents (discovery, key set, claims) are JSON; parsing
//! is delegated to serde_json. What a document yields is named by
//! uninterpreted functions of the document bytes — the value of a string
//! member, the decimal literal of a number member, the length of an array
//! member, the members of an array element — so that the parsers built on
//! top can carry exact contracts. serde_json is deterministic: the same
//! bytes always yield the same document, so each name is a pure function
//! of its arguments.

use vstd::prelude::*;

verus! {

/// The document bytes parse as one JSON value.
pub uninterp spec fn json_wf_of(b: Seq<u8>) -> bool;

/// The value of member `name`, if the bytes parse as a JSON object whose
/// member `name` is a string.
pub uninterp spec fn str_member_of(b: Seq<u8>, name: Seq<char>) -> Option<Seq<char>>;

/// The decimal literal of member `name`, if the bytes parse as a JSON
/// object whose member `name` is a number.
pub uninterp spec fn num_lit_member_of(b: Seq<u8>, name: Seq<char>) -> Option<Seq<char>>;

/// The bytes parse as a JSON value in which member `name` is absent or
/// null.
pub uninterp spec fn missing_member_of(b: Seq<u8>, name: Seq<char>) -> bool;

/// The length of member `name`, if the bytes parse as a JSON object whose
/// member `name` is an array.
pub uninterp spec fn arr_len_member_of(b: Seq<u8>, name: Seq<char>) -> Option<int>;

/// The string member `name` of element `i` of the array member `arr`, if
/// the bytes parse as a JSON object whose member `arr` is an array, whose
/// element `i` is an object, whose member `name` is a string.
pub uninterp spec fn elem_str_member_of(
    b: Seq<u8>,
    arr: Seq<char>,
    i: int,
    name: Seq<char>,
) -> Option<Seq<char>>;

/// Relies on serde_json::from_slice: whether the bytes parse as one JSON
/// document, with the parser's message when they do not. On bytes that do
/// not parse, every member lookup below comes up empty, since all go
/// through the same deterministic parser.
#[verifier::external_body]
pub(crate) fn json_check(b: &[u8]) -> (r: Result<(), String>)
    ensures
        r is Ok <==> json_wf_of(b@),
        r is Err ==> forall|n: Seq<char>| str_member_of(b@, n) is None,
        r is Err ==> forall|n: Seq<char>| num_lit_member_of(b@, n) is None,
        r is Err ==> forall|n: Seq<char>| !missing_member_of(b@, n),
        r is Err ==> forall|n: Seq<char>| arr_len_member_of(b@, n) is None,
{
    serde_json::from_slice::<serde_json::Value>(b).map(|_| ()).map_err(|e| format!("{}", e))
}

/// Relies on serde_json::from_slice, Value::get and Value::as_str: the
/// string member `name` of the document, exactly when the bytes parse as
/// an object with such a string member.
#[verifier::external_body]
pub(crate) fn json_str_member(b: &[u8], name: &str) -> (r: Option<String>)
    ensures
        match r {
            Some(s) => str_member_of(b@, name@) == Some(s@),
            None => str_member_of(b@, name@) is None,
        },
{
    let v: serde_json::Value = serde_json::from_slice(b).ok()?;
    Some(v.get(name)?.as_str()?.to_owned())
}

/// Relies on serde_json::from_slice, Value::get and serde_json::Number's
/// `Display` (itoa/ryu, deterministic): the decimal literal of the number
/// member `name`, exactly when the bytes parse as an object with such a
/// number member.
#[verifier::external_body]
pub(crate) fn json_num_member(b: &[u8], name: &str) -> (r: Option<String>)
    ensures
        match r {
            Some(s) => num_lit_member_of(b@, name@) == Some(s@),
            None => num_lit_member_of(b@, name@) is None,
        },
{
    let v: serde_json::Value = serde_json::from_slice(b).ok()?;
    match v.get(name)? {
        serde_json::Value::Number(n) => Some(format!("{}", n)),
        _ => None,
    }
}

/// Relies on serde_json::from_slice, Value::get and Value::is_null:
/// whether the member `name` is absent or null in the parsed document.
#[verifier::external_body]
pub(crate) fn json_member_missing(b: &[u8], name: &str) -> (r: bool)
    ensures
        r == missing_member_of(b@, name@),
{
    match serde_json::from_slice::<serde_json::Value>(b) {
        Ok(v) => match v.get(name) {
            None => true,
            Some(x) => x.is_null(),
        },
        Err(_) => false,
    }
}

/// Relies on serde_json::from_slice, Value::get and Value::as_array: the
/// length of the array member `name`, exactly when the bytes parse as an
/// object with such an array member.
#[verifier::external_body]
pub(crate) fn json_arr_len(b: &[u8], name: &str) -> (r: Option<usize>)
    ensures
        match r {
            Some(n) => arr_len_member_of(b@, name@) == Some(n as int),
            None => arr_len_member_of(b@, name@) is None,
        },
{
    let v: serde_json::Value = serde_json::from_slice(b).ok()?;
    Some(v.get(name)?.as_array()?.len())
}

/// Relies on serde_json::from_slice, Value::get (by member and by index)
/// and Value::as_str: the string member `name` of element `i` of the
/// array member `arr`, exactly when the document holds one.
#[verifier::external_body]
pub(crate) fn json_elem_str_member(b: &[u8], arr: &str, i: usize, name: &str) -> (r: Option<String>)
    ensures
        match r {
            Some(s) => elem_str_member_of(b@, arr@, i as int, name@) == Some(s@),
            None => elem_str_member_of(b@, arr@, i as int, name@) is None,
        },
{
    let v: serde_json::Value = serde_json::from_slice(b).ok()?;
    Some(v.get(arr)?.get(i)?.get(name)?.as_str()?.to_owned())
}

} // verus!
