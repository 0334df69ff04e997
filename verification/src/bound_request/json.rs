//! JSON and NDJSON request bodies.

use bytes::Bytes;
use serde_json::Value;
use vstd::prelude::*;
use vstd::utf8::encode_utf8;

use crate::bound_request::{
    built_with, content_type_ensured, law_built_is_sent, law_state_is_typed, sends, typed,
    typed_refusal, BoundRequest, BoundRequestBuilder, RequestError,
};
use crate::body::{body_data, frame_bytes, BodyPoll};
use crate::buf::{bytes_from_vec, bytes_of};
use crate::json::{json_text, json_value, json_written, write_json};
use crate::lines::{law_terminated_lines_read_back, terminated, NEWLINE};
use crate::request_head::{header_refusal, is_header_value};
use crate::response_helpers::ndjson::{documents_of, law_documents_of_body, NdjsonView};

verus! {

/// The media type of a JSON document.
pub const MIME_JSON: &'static str = "application/json";

/// The media type of newline-delimited JSON documents.
pub const MIME_NDJSON: &'static str = "application/x-ndjson";

impl<C> BoundRequestBuilder<C> {
    /// Attaches a JSON text as the body.
    pub fn json_bytes(self, encoded: Vec<u8>) -> (r: Result<BoundRequest<C, Bytes>, RequestError>)
        ensures
            built_with(self, MIME_JSON@, encoded@, r),
    {
        self.ensure_content_type(MIME_JSON).body(bytes_from_vec(encoded))
    }

    /// Attaches a JSON document as the body.
    pub fn json(self, data: &Value) -> (r: Result<BoundRequest<C, Bytes>, RequestError>)
        ensures
            match json_written(*data) {
                Ok(encoded) => built_with(self, MIME_JSON@, encoded, r),
                Err(cause) => r == Err::<BoundRequest<C, Bytes>, RequestError>(
                    RequestError::Json(cause),
                ),
            },
    {
        match write_json(data) {
            Ok(encoded) => self.json_bytes(encoded),
            Err(error) => Err(RequestError::Json(error)),
        }
    }

    /// Attaches a stream of NDJSON frames as the body; see [`ndjson_frame`].
    pub fn ndjson<B>(self, frames: B) -> (r: Result<BoundRequest<C, B>, RequestError>)
        ensures
            match r {
                Ok(request) => {
                    &&& content_type_ensured(self.head(), MIME_NDJSON@, Some(request.head()))
                    &&& request.payload() == frames
                    &&& request.type_map() == self.type_map()
                    &&& request.bound_client() == self.bound_client()
                },
                Err(error) => error == RequestError::Http(typed_refusal(self, MIME_NDJSON@))
                    && content_type_ensured(self.head(), MIME_NDJSON@, None),
            },
    {
        self.ensure_content_type(MIME_NDJSON).body(frames)
    }
}

/// A JSON text is sent as it is and a document as the text that `serde_json` writes for it,
/// as JSON unless another type was given; a document that cannot be written is refused for
/// that reason, whatever the builder holds.
pub proof fn law_json_is_sent<C>(
    builder: BoundRequestBuilder<C>,
    encoded: Vec<u8>,
    data: &Value,
    r: Result<BoundRequest<C, Bytes>, RequestError>,
)
    ensures
        call_ensures(BoundRequestBuilder::<C>::json_bytes, (builder, encoded), r) ==> sends(
            builder,
            "application/json"@,
            encoded@,
            r,
        ),
        call_ensures(BoundRequestBuilder::<C>::json, (builder, data), r) ==> match json_written(
            *data,
        ) {
            Ok(source) => sends(builder, "application/json"@, source, r),
            Err(cause) => r matches Err(error) && error == RequestError::Json(cause),
        },
{
    reveal_strlit("application/json");
    assert(is_header_value("application/json"@));
    if call_ensures(BoundRequestBuilder::<C>::json_bytes, (builder, encoded), r) {
        law_built_is_sent(builder, MIME_JSON@, encoded@, r);
    }
    if call_ensures(BoundRequestBuilder::<C>::json, (builder, data), r) {
        if let Ok(source) = json_written(*data) {
            law_built_is_sent(builder, MIME_JSON@, source, r);
        }
    }
}

/// A stream of NDJSON frames is sent as it is, as NDJSON unless another type was given.
pub proof fn law_ndjson_is_sent<C, B>(
    builder: BoundRequestBuilder<C>,
    frames: B,
    r: Result<BoundRequest<C, B>, RequestError>,
)
    requires
        call_ensures(BoundRequestBuilder::<C>::ndjson::<B>, (builder, frames), r),
    ensures
        match (builder.head(), r) {
            (Some(head), Ok(request)) => {
                &&& typed(head, "application/x-ndjson"@, request.head())
                &&& request.payload() == frames
                &&& request.type_map() == builder.type_map()
                &&& request.bound_client() == builder.bound_client()
            },
            (Some(head), Err(error)) => {
                &&& !head.has_room()
                &&& !head.headers.dom().contains("content-type"@)
                &&& error == RequestError::Http(
                    header_refusal("content-type"@, encode_utf8("application/x-ndjson"@)),
                )
            },
            (None, Ok(_)) => false,
            (None, Err(error)) => error == RequestError::Http(builder.refused()),
        },
{
    reveal_strlit("application/x-ndjson");
    assert(is_header_value("application/x-ndjson"@));
    match r {
        Ok(request) => {
            law_state_is_typed(builder.head(), MIME_NDJSON@, Some(request.head()));
        },
        Err(_) => {
            law_state_is_typed(builder.head(), MIME_NDJSON@, None);
        },
    }
}

/// A frame is the text that `serde_json` writes for a document and one `\n`, the only one in
/// it. Only a document that cannot be written has none.
pub proof fn law_frame_is_one_line(item: &Value, r: Result<Bytes, serde_json::Error>)
    requires
        call_ensures(ndjson_frame, (item,), r),
    ensures
        match json_written(*item) {
            Ok(source) => {
                &&& r matches Ok(frame)
                &&& bytes_of(frame) == source + seq![10u8]
                &&& !source.contains(10u8)
            },
            Err(cause) => r matches Err(error) && error == cause,
        },
{
    if let Ok(frame) = r {
        assert(bytes_of(frame) =~= json_text(*item)->0 + seq![10u8]);
    }
}

/// The frame that carries one JSON text: the text and a `\n`.
pub fn ndjson_line(encoded: Vec<u8>) -> (r: Bytes)
    ensures
        bytes_of(r) == encoded@.push(NEWLINE),
{
    let mut buffer = encoded;
    buffer.push(NEWLINE);
    bytes_from_vec(buffer)
}

/// Whether `frame` carries the document `item`: its text, which holds no `\n`, and a `\n`.
pub open spec fn frames(item: Value, frame: Seq<u8>) -> bool {
    json_text(item) matches Some(encoded) && !encoded.contains(NEWLINE) && frame == encoded.push(
        NEWLINE,
    )
}

/// The frame that carries one JSON document.
pub fn ndjson_frame(item: &Value) -> (r: Result<Bytes, serde_json::Error>)
    ensures
        match r {
            Ok(frame) => frames(*item, bytes_of(frame)),
            Err(error) => json_written(*item) == Err::<Seq<u8>, serde_json::Error>(error),
        },
{
    match write_json(item) {
        Ok(encoded) => Ok(ndjson_line(encoded)),
        Err(error) => Err(error),
    }
}

/// What is written as NDJSON is read back: a body that holds JSON texts, each followed by a
/// `\n` and none with a `\n` in it, is read as the documents of these texts, in order, however
/// it is cut into frames.
pub proof fn law_ndjson_reads_back<B>(texts: Seq<Seq<u8>>, polls: Seq<BodyPoll<B>>)
    requires
        forall|i: int| 0 <= i < texts.len() ==> !(#[trigger] texts[i]).contains(NEWLINE),
        body_data(polls) == terminated(texts),
    ensures
        NdjsonView::<Result<Value, serde_json::Error>>::initial().run(polls) == documents_of(texts),
{
    let fresh = NdjsonView::<Result<Value, serde_json::Error>>::initial();
    law_documents_of_body(fresh, polls);
    law_terminated_lines_read_back(texts);
    assert(fresh.partial + terminated(texts) =~= terminated(texts));
    assert(fresh.queue + documents_of(texts) =~= documents_of(texts));
}

/// Frames are texts, each followed by a `\n`.
proof fn lemma_frames_are_lines(written: Seq<Seq<u8>>, texts: Seq<Seq<u8>>)
    requires
        written.len() == texts.len(),
        forall|i: int| 0 <= i < texts.len() ==> written[i] == (#[trigger] texts[i]).push(NEWLINE),
    ensures
        frame_bytes(written) == terminated(texts),
    decreases texts.len(),
{
    if texts.len() > 0 {
        let init = texts.drop_last();
        assert forall|i: int| 0 <= i < init.len() implies written.drop_last()[i] == (
        #[trigger] init[i]).push(NEWLINE) by {
            assert(init[i] == texts[i]);
        }
        lemma_frames_are_lines(written.drop_last(), init);
        assert(texts.last() == texts[texts.len() - 1]);
    }
}

/// Reading NDJSON undoes writing it: documents come out of a body that holds the frames that
/// [`ndjson_frame`] makes of them, in order, and nothing else does, however the body is cut.
/// The documents are those whose text `serde_json` reads as the document again.
pub proof fn law_documents_read_back<B>(
    items: Seq<Value>,
    written: Seq<Seq<u8>>,
    polls: Seq<BodyPoll<B>>,
)
    requires
        written.len() == items.len(),
        forall|i: int| 0 <= i < items.len() ==> frames(#[trigger] items[i], written[i]),
        forall|i: int|
            0 <= i < items.len() ==> json_value(json_text(#[trigger] items[i])->0) == Some(
                items[i],
            ),
        body_data(polls) == frame_bytes(written),
    ensures
        NdjsonView::<Result<Value, serde_json::Error>>::initial().run(polls) == items.map_values(
            |item: Value| Ok::<Value, serde_json::Error>(item),
        ),
{
    let texts = items.map_values(|item: Value| json_text(item)->0);
    assert forall|i: int| 0 <= i < texts.len() implies {
        &&& written[i] == (#[trigger] texts[i]).push(NEWLINE)
        &&& !texts[i].contains(NEWLINE)
        &&& json_value(texts[i]) == Some(items[i])
    } by {
        assert(frames(items[i], written[i]));
    }
    lemma_frames_are_lines(written, texts);
    law_ndjson_reads_back(texts, polls);
    let wanted = items.map_values(|item: Value| Ok::<Value, serde_json::Error>(item));
    assert forall|i: int| 0 <= i < wanted.len() implies documents_of(texts)[i] == wanted[i] by {
        assert(json_value(texts[i]) == Some(items[i]));
    }
    assert(documents_of(texts) =~= wanted);
}

} // verus!
