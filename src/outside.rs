//! The calls into std and outside crates that the library relies on, each
//! with the contract that the library assumes of it.

use vstd::prelude::*;
use vstd::utf8::{decode_utf8, valid_utf8};
use crate::json::{json_text_of_pairs, json_text_of_str, json_text_of_strings};
use crate::runner::{texts, vars_view};
use rand::RngCore;

verus! {

/// Relies on `String::push`: appends one character at the end.
#[verifier::external_body]
pub(crate) fn push_char(s: &mut String, c: char)
    ensures
        final(s)@ == old(s)@.push(c),
{
    s.push(c)
}

/// Relies on `String::push_str`: appends the text at the end.
#[verifier::external_body]
pub(crate) fn push_str(s: &mut String, t: &str)
    ensures
        final(s)@ == old(s)@ + t@,
{
    s.push_str(t)
}

/// Relies on `rand::rngs::OsRng::try_fill_bytes`: eight bytes from the
/// operating system, or `None` where it cannot give them. Nothing is known
/// of the value.
#[verifier::external_body]
pub(crate) fn random_u64() -> (r: Option<u64>) {
    let mut bytes = [0u8; 8];
    match rand::rngs::OsRng.try_fill_bytes(&mut bytes) {
        Ok(()) => Some(u64::from_le_bytes(bytes)),
        Err(_) => None,
    }
}

/// The error type of serde_json.
#[verifier::external_type_specification]
#[verifier::external_body]
pub struct ExJsonError(serde_json::Error);

/// The error of a failed UTF-8 decoding.
#[verifier::external_type_specification]
#[verifier::external_body]
pub struct ExFromUtf8Error(std::string::FromUtf8Error);

/// Relies on `String::from_utf8`: succeeds exactly on valid UTF-8, and the
/// string holds the characters that the bytes encode.
pub assume_specification[ String::from_utf8 ](vec: Vec<u8>) -> (r: Result<String, std::string::FromUtf8Error>)
    ensures
        r is Ok <==> valid_utf8(vec@),
        r matches Ok(s) ==> s@ == decode_utf8(vec@),
;

/// What serde_json makes of a JSON text read as a list of pairs of strings;
/// `None` where it refuses the text.
pub uninterp spec fn json_string_pairs(s: Seq<char>) -> Option<Seq<(Seq<char>, Seq<char>)>>;

/// Relies on `serde_json::from_str` at `Vec<(String, String)>`: the outcome
/// depends on the text alone.
#[verifier::external_body]
pub(crate) fn parse_string_pairs(s: &str) -> (r: Result<Vec<(String, String)>, serde_json::Error>)
    ensures
        r is Ok <==> json_string_pairs(s@) is Some,
        r matches Ok(v) ==> Some(vars_view(v@)) == json_string_pairs(s@),
{
    serde_json::from_str::<Vec<(String, String)>>(s)
}

/// Relies on `serde_json::to_string` at `Vec<(String, String)>`: writing
/// strings into memory does not fail, and each pair is an array of its two
/// strings.
#[verifier::external_body]
pub(crate) fn write_string_pairs(v: &Vec<(String, String)>) -> (r: Result<String, serde_json::Error>)
    ensures
        r is Ok,
        r matches Ok(s) ==> s@ == json_text_of_pairs(vars_view(v@)),
{
    serde_json::to_string(v)
}

/// Relies on `serde_json::to_string` at `Vec<String>`: writing strings into
/// memory does not fail.
#[verifier::external_body]
pub(crate) fn write_strings(v: &Vec<String>) -> (r: Result<String, serde_json::Error>)
    ensures
        r is Ok,
        r matches Ok(s) ==> s@ == json_text_of_strings(texts(v@)),
{
    serde_json::to_string(v)
}

/// Relies on `serde_json::to_string` at `str`: writing a string into memory
/// does not fail.
#[verifier::external_body]
pub(crate) fn write_str(s: &str) -> (r: Result<String, serde_json::Error>)
    ensures
        r is Ok,
        r matches Ok(t) ==> t@ == json_text_of_str(s@),
{
    serde_json::to_string(s)
}

} // verus!
