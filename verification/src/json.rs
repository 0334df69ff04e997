//! JSON documents, read and written by `serde_json`.

use serde_json::Value;
use vstd::prelude::*;

use crate::lines::NEWLINE;

verus! {

/// `serde_json::Value`, a JSON document.
#[verifier::external_type_specification]
#[verifier::external_body]
pub struct ExValue(serde_json::Value);

/// `serde_json::Error`, why a document could not be read or written.
#[verifier::external_type_specification]
#[verifier::external_body]
pub struct ExJsonError(serde_json::Error);

/// What `serde_json::from_slice` makes of a text: a document, or why it refuses the text.
pub uninterp spec fn json_read(source: Seq<u8>) -> Result<serde_json::Value, serde_json::Error>;

/// What `serde_json::to_vec` makes of a document: its text, or why it fails.
pub uninterp spec fn json_written(document: serde_json::Value) -> Result<
    Seq<u8>,
    serde_json::Error,
>;

/// The document of a text, or `None` for a text that is refused.
pub open spec fn json_value(source: Seq<u8>) -> Option<Value> {
    match json_read(source) {
        Ok(document) => Some(document),
        Err(_) => None,
    }
}

/// The text of a document, or `None` for one that cannot be written.
pub open spec fn json_text(document: Value) -> Option<Seq<u8>> {
    match json_written(document) {
        Ok(source) => Some(source),
        Err(_) => None,
    }
}

/// `serde_json::from_slice` into a `Value`: what [`json_read`] says, the error too.
#[verifier::external_body]
pub(crate) fn parse_json(source: &[u8]) -> (r: Result<Value, serde_json::Error>)
    ensures
        r == json_read(source@),
{
    serde_json::from_slice(source)
}

/// `serde_json::to_vec` of a `Value`: what [`json_written`] says, the error too. The text is
/// compact: there is no white space between tokens, and control characters in strings are
/// escaped, so it holds no `\n`.
#[verifier::external_body]
pub(crate) fn write_json(document: &Value) -> (r: Result<Vec<u8>, serde_json::Error>)
    ensures
        match r {
            Ok(source) => json_written(*document) == Ok::<Seq<u8>, serde_json::Error>(source@)
                && !source@.contains(NEWLINE),
            Err(error) => json_written(*document) == Err::<Seq<u8>, serde_json::Error>(error),
        },
{
    serde_json::to_vec(document)
}

} // verus!
