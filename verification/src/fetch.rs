//! What the fetcher does with a response once it has one: the body must be
//! text before it can be a payload.

use crate::error::SyncError;
use vstd::prelude::*;
use vstd::utf8::{encode_utf8, valid_utf8};

verus! {

/// `String::from_utf8`. Assumed: it gives the text whose UTF-8 encoding the
/// bytes are, and fails just when the bytes are no valid UTF-8.
#[verifier::external_body]
fn text_of(bytes: Vec<u8>) -> (r: Option<String>)
    ensures
        match r {
            Some(text) => valid_utf8(bytes@) && encode_utf8(text@) == bytes@,
            None => !valid_utf8(bytes@),
        },
{
    String::from_utf8(bytes).ok()
}

/// The payload that the body of a response holds. A body that is no UTF-8
/// text is a protocol error.
pub fn decode_body(body: Vec<u8>) -> (r: Result<String, SyncError>)
    ensures
        match r {
            Ok(text) => valid_utf8(body@) && encode_utf8(text@) == body@,
            Err(e) => e == SyncError::Protocol && !valid_utf8(body@),
        },
{
    match text_of(body) {
        Some(text) => Ok(text),
        None => Err(SyncError::Protocol),
    }
}

} // verus!
