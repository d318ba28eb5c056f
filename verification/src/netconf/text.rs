//! Small operations on text that the engine needs.

use crate::netconf::xml::{texts, Text};
use std::string::FromUtf8Error;
use vstd::prelude::*;
use vstd::string::*;
use vstd::utf8::*;

verus! {

/// Whether two slices hold the same bytes.
pub fn same_bytes(left: &[u8], right: &[u8]) -> (same: bool)
    ensures
        same == (left@ == right@),
{
    if left.len() != right.len() {
        return false;
    }
    let mut at: usize = 0;
    while at < left.len()
        invariant
            left@.len() == right@.len(),
            at <= left@.len(),
            forall|i: int| 0 <= i < at ==> left@[i] == right@[i],
        decreases left@.len() - at,
    {
        if left[at] != right[at] {
            return false;
        }
        at += 1;
    }
    assert(left@ =~= right@);
    true
}

/// Whether two strings hold the same text.
pub fn same_text(left: &str, right: &str) -> (same: bool)
    ensures
        same == (left@ == right@),
{
    proof {
        encode_utf8_decode_utf8(left@);
        encode_utf8_decode_utf8(right@);
    }
    same_bytes(left.as_bytes(), right.as_bytes())
}

/// The tokens joined by single spaces.
pub open spec fn joined(tokens: Seq<Text>) -> Text
    decreases tokens.len(),
{
    if tokens.len() == 0 {
        Seq::empty()
    } else if tokens.len() == 1 {
        tokens[0]
    } else {
        joined(tokens.drop_last()) + seq![' '] + tokens.last()
    }
}

/// Joins the tokens of a command by single spaces.
pub fn join_tokens(tokens: &Vec<String>) -> (line: String)
    ensures
        line@ == joined(texts(tokens@)),
{
    let mut line = String::new();
    let ghost all = texts(tokens@);
    let mut at: usize = 0;
    while at < tokens.len()
        invariant
            at <= tokens@.len(),
            all == texts(tokens@),
            line@ == joined(all.take(at as int)),
        decreases tokens@.len() - at,
    {
        proof {
            reveal_strlit(" ");
            assert(all.take(at + 1).drop_last() =~= all.take(at as int));
            assert(all.take(at + 1).last() == tokens@[at as int]@);
        }
        if at != 0 {
            line.append(" ");
            assert(" "@ =~= seq![' ']);
        }
        line.append(tokens[at].as_str());
        at += 1;
    }
    assert(all.take(at as int) =~= all);
    line
}

/// The error of `String::from_utf8`, of which nothing is read.
#[verifier::external_type_specification]
#[verifier::external_body]
pub struct ExFromUtf8Error(FromUtf8Error);

/// Decodes bytes as UTF-8 with `String::from_utf8`.
///
/// Not proved, taken from the documentation of `String::from_utf8`: the call
/// succeeds exactly on valid UTF-8, and the string then holds the characters
/// that the bytes encode.
#[verifier::external_body]
fn string_from_utf8(bytes: Vec<u8>) -> (decoded: Result<String, FromUtf8Error>)
    ensures
        decoded is Ok <==> valid_utf8(bytes@),
        decoded matches Ok(text) ==> text@ == decode_utf8(bytes@),
{
    String::from_utf8(bytes)
}

/// Decodes bytes as UTF-8 text; `None` when they are not valid UTF-8.
pub fn decode_text(bytes: Vec<u8>) -> (decoded: Option<String>)
    ensures
        decoded is Some <==> valid_utf8(bytes@),
        decoded matches Some(text) ==> text@ == decode_utf8(bytes@),
{
    match string_from_utf8(bytes) {
        Ok(text) => Some(text),
        Err(_) => None,
    }
}

} // verus!
