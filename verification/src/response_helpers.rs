//! Reading response bodies.

use bytes::Bytes;
use serde_json::Value;
use vstd::prelude::*;
use vstd::utf8::{decode_utf8, valid_utf8};

use crate::buf::{bytes_of, chunk};
use crate::json::{json_read, parse_json};
use crate::text::{decode_strict, utf8_refusal};

pub mod ndjson;
pub mod sse;

verus! {

/// Why a response body could not be read as asked.
#[derive(Debug)]
pub enum BodyError {
    /// The body is not UTF-8.
    Utf8(std::string::FromUtf8Error),
    /// The body is no JSON document.
    Json(serde_json::Error),
}

/// Reads a full body as UTF-8 text.
pub fn text(body: &Bytes) -> (r: Result<String, BodyError>)
    ensures
        match r {
            Ok(content) => valid_utf8(bytes_of(*body)) && content@ == decode_utf8(bytes_of(*body)),
            Err(error) => !valid_utf8(bytes_of(*body)) && error == BodyError::Utf8(
                utf8_refusal(bytes_of(*body)),
            ),
        },
{
    let source = chunk(body);
    let mut data: Vec<u8> = Vec::with_capacity(source.len());
    data.extend_from_slice(source);
    assert(data@ =~= source@);
    match decode_strict(data) {
        Ok(content) => Ok(content),
        Err(error) => Err(BodyError::Utf8(error)),
    }
}

/// Reads a full body as one JSON document.
pub fn json(body: &Bytes) -> (r: Result<Value, BodyError>)
    ensures
        match r {
            Ok(document) => json_read(bytes_of(*body)) == Ok::<Value, serde_json::Error>(document),
            Err(error) => error matches BodyError::Json(cause) && json_read(bytes_of(*body))
                == Err::<Value, serde_json::Error>(cause),
        },
{
    match parse_json(chunk(body)) {
        Ok(document) => Ok(document),
        Err(error) => Err(BodyError::Json(error)),
    }
}

} // verus!
