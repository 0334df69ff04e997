//! Requests that are bound to the client that will send them.

use bytes::Bytes;
use http::request::Builder;
use http::{Extensions, HeaderMap, HeaderValue, Request};
use vstd::prelude::*;
use vstd::utf8::encode_utf8;

use crate::buf::{bytes_copy_of, bytes_of};
use crate::request_head::{
    add_extension, add_header, carries, finish, has_header, header_refusal, headers_of,
    is_header_bytes, is_header_name, is_header_value, is_token, lemma_header_text, look_up,
    lower_case, method_refusal, refusal, request_extensions, request_head, request_headers,
    sent_head, sent_type_map, set_method, set_uri, start, type_count, type_map, uri_refusal,
    RequestHead,
};
use crate::uri::uri_parse;

pub mod json;

verus! {

/// The media type of plain text.
pub const MIME_TEXT: &'static str = "text/plain; charset=utf-8";

/// The media type of arbitrary bytes.
pub const MIME_BYTES: &'static str = "application/octet-stream";

/// Why a request could not be built.
#[derive(Debug)]
pub enum RequestError {
    /// Method, target or a header was refused.
    Http(http::Error),
    /// The body could not be written as JSON.
    Json(serde_json::Error),
}

/// The body of a request that has none.
#[derive(Clone, Copy, Debug, PartialEq, Eq, Structural)]
pub struct EmptyBody;

/// The head that a request starts with, given a method and a target, or `None` where one
/// of them is refused.
pub open spec fn initial_head(method: Seq<char>, uri: Seq<char>) -> Option<RequestHead> {
    match uri_parse(uri) {
        Some(target) if is_token(method) => Some(
            RequestHead { method, uri: target, headers: Map::empty() },
        ),
        _ => None,
    }
}

/// Why a method and a target are refused, where they are.
pub open spec fn start_refusal(method: Seq<char>, uri: Seq<char>) -> http::Error {
    if is_token(method) {
        uri_refusal(uri)
    } else {
        method_refusal(method)
    }
}

/// `next` is the builder state `state` after a header was appended to it.
pub open spec fn header_added(
    state: Option<RequestHead>,
    name: Seq<char>,
    value: Seq<char>,
    next: Option<RequestHead>,
) -> bool {
    match state {
        Some(head) if is_header_name(name) && is_header_value(value) => {
            ||| next == Some(head.appended(name, encode_utf8(value)))
            ||| next is None && !head.has_room()
        },
        _ => next is None,
    }
}

/// `next` is the builder state `state` after a header with a value of any bytes was appended
/// to it.
pub open spec fn header_bytes_added(
    state: Option<RequestHead>,
    name: Seq<char>,
    value: Seq<u8>,
    next: Option<RequestHead>,
) -> bool {
    match state {
        Some(head) if is_header_name(name) && is_header_bytes(value) => {
            ||| next == Some(head.appended(name, value))
            ||| next is None && !head.has_room()
        },
        _ => next is None,
    }
}

/// `next` is the builder state `state` after a content type was asked for: it is added
/// only where the request has none.
pub open spec fn content_type_ensured(
    state: Option<RequestHead>,
    mime: Seq<char>,
    next: Option<RequestHead>,
) -> bool {
    match state {
        Some(head) if head.headers.dom().contains("content-type"@) => next == state,
        _ => header_added(state, "content-type"@, mime, next),
    }
}

/// A content type is given once: a builder that has been given one, or that was asked to
/// ensure one, keeps it however often another is asked for.
pub proof fn law_content_type_is_kept(
    state: Option<RequestHead>,
    first: Seq<char>,
    second: Seq<char>,
    middle: Option<RequestHead>,
    next: Option<RequestHead>,
)
    requires
        content_type_ensured(state, first, middle),
        content_type_ensured(middle, second, next),
    ensures
        next == middle,
        next matches Some(head) ==> head.headers.dom().contains("content-type"@),
{
    lemma_content_type_is_a_name();
}

/// What was refused is not mended: once a builder has refused something, no header and no
/// content type make it build a request.
pub proof fn law_refusal_is_kept(
    name: Seq<char>,
    value: Seq<char>,
    bytes: Seq<u8>,
    next: Option<RequestHead>,
)
    requires
        header_added(None, name, value, next) || header_bytes_added(None, name, bytes, next)
            || content_type_ensured(None, value, next),
    ensures
        next is None,
{
}

/// A builder for a request that is bound to a client.
///
/// Something that the builder refuses, such as a name that no header can have, is
/// remembered and reported when the request is built.
pub struct BoundRequestBuilder<C> {
    inner: Builder,
    client: C,
}

impl<C> BoundRequestBuilder<C> {
    /// What the builder has been given, or `None` once something was refused.
    pub closed spec fn head(&self) -> Option<RequestHead> {
        request_head(self.inner)
    }

    /// Why the builder refused what it refused first. It means something only once something
    /// was refused.
    pub closed spec fn refused(&self) -> http::Error {
        refusal(self.inner)
    }

    /// The client that the request is bound to.
    pub closed spec fn bound_client(&self) -> C {
        self.client
    }

    /// The values that the builder has been given, by their types. It means something only
    /// while nothing was refused.
    pub closed spec fn type_map(&self) -> Extensions {
        type_map(self.inner)
    }

    /// Starts a request with a method and a target.
    pub fn new(client: C, method: &str, uri: &str) -> (r: Self)
        ensures
            r.head() matches Some(head) ==> {
                &&& head.method == method@
                &&& uri_parse(uri@) == Some(head.uri)
                &&& head.headers == Map::<Seq<char>, Seq<Seq<u8>>>::empty()
            },
            r.head() is None <==> !is_token(method@) || uri_parse(uri@) is None,
            r.head() == initial_head(method@, uri@),
            r.head() is None ==> r.refused() == start_refusal(method@, uri@),
            r.head() is Some ==> type_count(r.type_map()) == 0,
            r.bound_client() == client,
    {
        let inner = set_uri(set_method(start(), method), uri);
        BoundRequestBuilder { inner, client }
    }

    /// Appends a header.
    pub fn header(self, key: &str, value: &str) -> (r: Self)
        ensures
            header_added(self.head(), key@, value@, r.head()),
            self.head() is None ==> r.refused() == self.refused(),
            self.head() is Some && r.head() is None ==> r.refused() == header_refusal(
                key@,
                encode_utf8(value@),
            ),
            r.head() is Some ==> r.type_map() == self.type_map(),
            r.bound_client() == self.bound_client(),
    {
        proof {
            lemma_header_text(value@);
        }
        self.header_bytes(key, value.as_bytes())
    }

    /// Appends a header with a value of any bytes.
    pub fn header_bytes(self, key: &str, value: &[u8]) -> (r: Self)
        ensures
            header_bytes_added(self.head(), key@, value@, r.head()),
            self.head() is None ==> r.refused() == self.refused(),
            self.head() is Some && r.head() is None ==> r.refused() == header_refusal(
                key@,
                value@,
            ),
            r.head() is Some ==> r.type_map() == self.type_map(),
            r.bound_client() == self.bound_client(),
    {
        BoundRequestBuilder { inner: add_header(self.inner, key, value), client: self.client }
    }

    /// Adds a value to the request's type map, in place of one of the same type.
    pub fn extension<T: Clone + Send + Sync + 'static>(self, extension: T) -> (r: Self)
        ensures
            r.head() == self.head(),
            r.head() is None ==> r.refused() == self.refused(),
            r.head() is Some ==> {
                &&& carries(r.type_map(), extension)
                &&& type_count(self.type_map()) <= type_count(r.type_map())
                &&& 0 < type_count(r.type_map()) <= type_count(self.type_map()) + 1
            },
            r.bound_client() == self.bound_client(),
    {
        BoundRequestBuilder { inner: add_extension(self.inner, extension), client: self.client }
    }

    /// Sets the content type, unless the request has one.
    pub fn ensure_content_type(self, mime: &str) -> (r: Self)
        ensures
            content_type_ensured(self.head(), mime@, r.head()),
            r.head() is None ==> r.refused() == typed_refusal(self, mime@),
            r.head() is Some ==> r.type_map() == self.type_map(),
            r.bound_client() == self.bound_client(),
    {
        proof {
            lemma_content_type_is_a_name();
        }
        if has_header(&self.inner, "content-type") {
            self
        } else {
            self.header("content-type", mime)
        }
    }

    /// Attaches a body.
    pub fn body<B>(self, body: B) -> (r: Result<BoundRequest<C, B>, RequestError>)
        ensures
            match r {
                Ok(request) => {
                    &&& self.head() == Some(request.head())
                    &&& request.type_map() == self.type_map()
                    &&& request.payload() == body
                    &&& request.bound_client() == self.bound_client()
                },
                Err(error) => self.head() is None && error == RequestError::Http(self.refused()),
            },
    {
        match finish(self.inner) {
            Ok(request) => Ok(BoundRequest { request, body, client: self.client }),
            Err(error) => Err(RequestError::Http(error)),
        }
    }

    /// Builds the request with an empty body.
    pub fn build(self) -> (r: Result<BoundRequest<C, EmptyBody>, RequestError>)
        ensures
            match r {
                Ok(request) => {
                    &&& self.head() == Some(request.head())
                    &&& request.type_map() == self.type_map()
                    &&& request.bound_client() == self.bound_client()
                },
                Err(error) => self.head() is None && error == RequestError::Http(self.refused()),
            },
    {
        self.body(EmptyBody)
    }

    /// Attaches a text as the body.
    pub fn text(self, text: &str) -> (r: Result<BoundRequest<C, Bytes>, RequestError>)
        ensures
            built_with(self, MIME_TEXT@, encode_utf8(text@), r),
    {
        let body = bytes_copy_of(text.as_bytes());
        self.ensure_content_type(MIME_TEXT).body(body)
    }

    /// Attaches bytes as the body.
    pub fn bytes(self, data: &[u8]) -> (r: Result<BoundRequest<C, Bytes>, RequestError>)
        ensures
            built_with(self, MIME_BYTES@, data@, r),
    {
        let body = bytes_copy_of(data);
        self.ensure_content_type(MIME_BYTES).body(body)
    }
}

/// Why a builder that is given a content type, unless it has one, refuses to build a request,
/// where it does: for what it refused before, else for the content type.
pub open spec fn typed_refusal<C>(builder: BoundRequestBuilder<C>, mime: Seq<char>) -> http::Error {
    if builder.head() is None {
        builder.refused()
    } else {
        header_refusal("content-type"@, encode_utf8(mime))
    }
}

/// `r` is what comes of giving the builder a content type, unless it has one, and a body.
pub open spec fn built_with<C>(
    builder: BoundRequestBuilder<C>,
    mime: Seq<char>,
    body: Seq<u8>,
    r: Result<BoundRequest<C, Bytes>, RequestError>,
) -> bool {
    match r {
        Ok(request) => {
            &&& content_type_ensured(builder.head(), mime, Some(request.head()))
            &&& bytes_of(request.payload()) == body
            &&& request.type_map() == builder.type_map()
            &&& request.bound_client() == builder.bound_client()
        },
        Err(error) => error == RequestError::Http(typed_refusal(builder, mime))
            && content_type_ensured(builder.head(), mime, None),
    }
}

/// Whether a builder has been given this client, this method and this target and nothing else,
/// or has refused the method, or else the target, because it is none.
pub open spec fn started<C>(
    builder: BoundRequestBuilder<C>,
    client: C,
    method: Seq<char>,
    uri: Seq<char>,
) -> bool {
    &&& builder.bound_client() == client
    &&& builder.head() is Some <==> is_token(method) && uri_parse(uri) is Some
    &&& builder.head() matches Some(head) ==> {
        &&& head.method == method
        &&& uri_parse(uri) == Some(head.uri)
        &&& forall|name: Seq<char>| !(#[trigger] head.headers.dom().contains(name))
        &&& type_count(builder.type_map()) == 0
    }
    &&& builder.head() is None ==> builder.refused() == if is_token(method) {
        uri_refusal(uri)
    } else {
        method_refusal(method)
    }
}

/// A request starts with the method and the target that it is given, as they are given and
/// whatever the other is, and with nothing else.
pub proof fn law_request_starts_as_given<C>(
    client: C,
    method: &str,
    uri: &str,
    r: BoundRequestBuilder<C>,
)
    requires
        call_ensures(BoundRequestBuilder::<C>::new, (client, method, uri), r),
    ensures
        started(r, client, method@, uri@),
        r.head() == initial_head(method@, uri@),
{
}

/// Whether `next` is the head with one more value under a name, behind those that are there,
/// and with nothing else changed.
pub open spec fn gained(
    head: RequestHead,
    name: Seq<char>,
    value: Seq<u8>,
    next: RequestHead,
) -> bool {
    let key = lower_case(name);
    &&& next.method == head.method
    &&& next.uri == head.uri
    &&& next.headers.dom().contains(key)
    &&& next.headers[key] == (if head.headers.dom().contains(key) {
        head.headers[key]
    } else {
        Seq::empty()
    }) + seq![value]
    &&& forall|other: Seq<char>|
        other != key ==> {
            &&& #[trigger] next.headers.dom().contains(other) <==> head.headers.dom().contains(
                other,
            )
            &&& head.headers.dom().contains(other) ==> next.headers[other] == head.headers[other]
        }
}

/// A header that is given is appended under its name and changes nothing else. It is refused
/// where its name or its value is none that a header can have, and else only for want of room;
/// a builder that has refused something goes on refusing that.
pub proof fn law_header_is_given<C>(
    builder: BoundRequestBuilder<C>,
    key: &str,
    value: &str,
    r: BoundRequestBuilder<C>,
)
    requires
        call_ensures(BoundRequestBuilder::<C>::header, (builder, key, value), r),
    ensures
        r.bound_client() == builder.bound_client(),
        builder.head() is None ==> r.head() is None && r.refused() == builder.refused(),
        builder.head() matches Some(head) ==> {
            &&& r.head() matches Some(next) ==> {
                &&& gained(head, key@, encode_utf8(value@), next)
                &&& r.type_map() == builder.type_map()
                &&& is_header_name(key@) && is_header_value(value@)
            }
            &&& is_header_name(key@) && is_header_value(value@) && head.has_room() ==> r.head()
                is Some
            &&& r.head() is None ==> r.refused() == header_refusal(key@, encode_utf8(value@))
        },
{
    if let Some(head) = builder.head() {
        if let Some(next) = r.head() {
            law_appended_is_gained(head, key@, encode_utf8(value@));
        }
    }
}

/// As [`law_header_is_given`], for a value of any bytes.
pub proof fn law_header_bytes_are_given<C>(
    builder: BoundRequestBuilder<C>,
    key: &str,
    value: &[u8],
    r: BoundRequestBuilder<C>,
)
    requires
        call_ensures(BoundRequestBuilder::<C>::header_bytes, (builder, key, value), r),
    ensures
        r.bound_client() == builder.bound_client(),
        builder.head() is None ==> r.head() is None && r.refused() == builder.refused(),
        builder.head() matches Some(head) ==> {
            &&& r.head() matches Some(next) ==> {
                &&& gained(head, key@, value@, next)
                &&& r.type_map() == builder.type_map()
                &&& is_header_name(key@) && is_header_bytes(value@)
            }
            &&& is_header_name(key@) && is_header_bytes(value@) && head.has_room() ==> r.head()
                is Some
            &&& r.head() is None ==> r.refused() == header_refusal(key@, value@)
        },
{
    if let Some(head) = builder.head() {
        if let Some(next) = r.head() {
            law_appended_is_gained(head, key@, value@);
        }
    }
}

/// The head with a header appended has gained that header and nothing else.
pub proof fn law_appended_is_gained(head: RequestHead, name: Seq<char>, value: Seq<u8>)
    ensures
        gained(head, name, value, head.appended(name, value)),
{
    let key = lower_case(name);
    let next = head.appended(name, value);
    assert(next.headers[key] =~= (if head.headers.dom().contains(key) {
        head.headers[key]
    } else {
        Seq::empty()
    }) + seq![value]);
}

/// A state that is given a header gains it and nothing else, or refuses it: where its name or
/// its value is none that a header can have, or for want of room.
pub proof fn law_state_gains_header(
    state: Option<RequestHead>,
    name: Seq<char>,
    value: Seq<char>,
    next: Option<RequestHead>,
)
    requires
        header_added(state, name, value, next),
    ensures
        state is None ==> next is None,
        next is Some ==> is_header_name(name) && is_header_value(value),
        state matches Some(head) ==> {
            &&& next matches Some(after) ==> gained(head, name, encode_utf8(value), after)
            &&& is_header_name(name) && is_header_value(value) && head.has_room() ==> next is Some
        },
{
    if let Some(head) = state {
        law_appended_is_gained(head, name, encode_utf8(value));
    }
}

/// Whether `next` is the head with a content type: the one that it has, with nothing changed,
/// or else this one, with nothing else changed.
pub open spec fn typed(head: RequestHead, mime: Seq<char>, next: RequestHead) -> bool {
    if head.headers.dom().contains("content-type"@) {
        next == head
    } else {
        &&& next.method == head.method
        &&& next.uri == head.uri
        &&& next.headers == head.headers.insert("content-type"@, seq![encode_utf8(mime)])
    }
}

/// A state that was asked for a content type has the one that it had, or else this one, and
/// is otherwise unchanged. It is refused only for want of room, where the type can be a header
/// value, and only if it had none.
pub proof fn law_state_is_typed(
    state: Option<RequestHead>,
    mime: Seq<char>,
    next: Option<RequestHead>,
)
    requires
        content_type_ensured(state, mime, next),
    ensures
        state is None ==> next is None,
        state matches Some(head) ==> {
            &&& next matches Some(after) ==> typed(head, mime, after)
            &&& head.headers.dom().contains("content-type"@) ==> next is Some
            &&& is_header_value(mime) && head.has_room() ==> next is Some
        },
{
    lemma_content_type_is_a_name();
    if let Some(head) = state {
        let added = head.appended("content-type"@, encode_utf8(mime));
        if !head.headers.dom().contains("content-type"@) {
            assert(added.headers["content-type"@] =~= seq![encode_utf8(mime)]);
            assert(added.headers =~= head.headers.insert(
                "content-type"@,
                seq![encode_utf8(mime)],
            ));
        }
    }
}

/// A content type that is asked for is set unless the request has one, and changes nothing
/// else.
pub proof fn law_content_type_is_set<C>(
    builder: BoundRequestBuilder<C>,
    mime: &str,
    r: BoundRequestBuilder<C>,
)
    requires
        call_ensures(BoundRequestBuilder::<C>::ensure_content_type, (builder, mime), r),
    ensures
        r.bound_client() == builder.bound_client(),
        r.head() is Some ==> r.type_map() == builder.type_map(),
        builder.head() is None ==> r.head() is None && r.refused() == builder.refused(),
        builder.head() matches Some(head) ==> {
            &&& r.head() matches Some(next) ==> typed(head, mime@, next)
            &&& head.headers.dom().contains("content-type"@) ==> r.head() is Some
            &&& is_header_value(mime@) && head.has_room() ==> r.head() is Some
            &&& r.head() is None ==> r.refused() == header_refusal(
                "content-type"@,
                encode_utf8(mime@),
            )
        },
{
    law_state_is_typed(builder.head(), mime@, r.head());
}

/// Whether `r` is a request with this body and with what the builder was given, and this
/// content type unless it was given one; or the reason why the builder refused something, or
/// had no room for the content type.
pub open spec fn sends<C>(
    builder: BoundRequestBuilder<C>,
    mime: Seq<char>,
    body: Seq<u8>,
    r: Result<BoundRequest<C, Bytes>, RequestError>,
) -> bool {
    match (builder.head(), r) {
        (Some(head), Ok(request)) => {
            &&& typed(head, mime, request.head())
            &&& bytes_of(request.payload()) == body
            &&& request.type_map() == builder.type_map()
            &&& request.bound_client() == builder.bound_client()
        },
        (Some(head), Err(error)) => {
            &&& !head.has_room()
            &&& !head.headers.dom().contains("content-type"@)
            &&& error == RequestError::Http(
                header_refusal("content-type"@, encode_utf8(mime)),
            )
        },
        (None, Ok(_)) => false,
        (None, Err(error)) => error == RequestError::Http(builder.refused()),
    }
}

/// What is built with a content type and a body is sent so.
pub proof fn law_built_is_sent<C>(
    builder: BoundRequestBuilder<C>,
    mime: Seq<char>,
    body: Seq<u8>,
    r: Result<BoundRequest<C, Bytes>, RequestError>,
)
    requires
        is_header_value(mime),
        built_with(builder, mime, body, r),
    ensures
        sends(builder, mime, body, r),
{
    match r {
        Ok(request) => {
            law_state_is_typed(builder.head(), mime, Some(request.head()));
        },
        Err(_) => {
            law_state_is_typed(builder.head(), mime, None);
        },
    }
}

/// A body is attached as it is to what the builder was given, which is not changed; a builder
/// that has refused something gives the reason instead, and only such a one does.
pub proof fn law_body_is_attached<C, B>(
    builder: BoundRequestBuilder<C>,
    body: B,
    r: Result<BoundRequest<C, B>, RequestError>,
)
    requires
        call_ensures(BoundRequestBuilder::<C>::body::<B>, (builder, body), r),
    ensures
        r is Ok <==> builder.head() is Some,
        r matches Ok(request) ==> {
            &&& Some(request.head()) == builder.head()
            &&& request.payload() == body
            &&& request.type_map() == builder.type_map()
            &&& request.bound_client() == builder.bound_client()
        },
        r matches Err(error) ==> error == RequestError::Http(builder.refused()),
{
}

/// A text is sent as its bytes, all of them, as plain text in UTF-8 unless another type was
/// given; bytes are sent as they are, as arbitrary bytes unless another type was given.
pub proof fn law_text_and_bytes_are_sent<C>(
    builder: BoundRequestBuilder<C>,
    text: &str,
    data: &[u8],
    r: Result<BoundRequest<C, Bytes>, RequestError>,
)
    ensures
        call_ensures(BoundRequestBuilder::<C>::text, (builder, text), r) ==> sends(
            builder,
            "text/plain; charset=utf-8"@,
            encode_utf8(text@),
            r,
        ),
        call_ensures(BoundRequestBuilder::<C>::bytes, (builder, data), r) ==> sends(
            builder,
            "application/octet-stream"@,
            data@,
            r,
        ),
{
    reveal_strlit("text/plain; charset=utf-8");
    reveal_strlit("application/octet-stream");
    assert(is_header_value("text/plain; charset=utf-8"@));
    assert(is_header_value("application/octet-stream"@));
    if call_ensures(BoundRequestBuilder::<C>::text, (builder, text), r) {
        law_built_is_sent(builder, MIME_TEXT@, encode_utf8(text@), r);
    }
    if call_ensures(BoundRequestBuilder::<C>::bytes, (builder, data), r) {
        law_built_is_sent(builder, MIME_BYTES@, data@, r);
    }
}

/// `content-type` is a name that a header can have, written in lower case.
pub(crate) proof fn lemma_content_type_is_a_name()
    ensures
        is_header_name("content-type"@),
        lower_case("content-type"@) == "content-type"@,
{
    reveal_strlit("content-type");
    assert(lower_case("content-type"@) =~= "content-type"@);
}

/// A request that is ready to be sent by the client it is bound to.
pub struct BoundRequest<C, B> {
    request: Request<()>,
    body: B,
    client: C,
}

impl<C, B> BoundRequest<C, B> {
    /// Method, target and headers.
    pub closed spec fn head(&self) -> RequestHead {
        sent_head(self.request)
    }

    /// The body.
    pub closed spec fn payload(&self) -> B {
        self.body
    }

    /// The client that the request is bound to.
    pub closed spec fn bound_client(&self) -> C {
        self.client
    }

    /// The values that the request carries, by their types.
    pub closed spec fn type_map(&self) -> Extensions {
        sent_type_map(self.request)
    }

    /// The values that the request carries, by their types.
    pub fn extensions(&self) -> (r: &Extensions)
        ensures
            *r == self.type_map(),
    {
        request_extensions(&self.request)
    }

    /// The value of a type that the request carries.
    pub fn extension<T: Send + Sync + 'static>(&self) -> (r: Option<&T>)
        ensures
            forall|value: T| #[trigger] carries(self.type_map(), value) ==> r == Some(&value),
            type_count(self.type_map()) == 0 ==> r is None,
    {
        look_up(self.extensions())
    }

    /// The headers of the request.
    pub fn headers(&self) -> (r: &HeaderMap<HeaderValue>)
        ensures
            headers_of(*r) == self.head().headers,
    {
        request_headers(&self.request)
    }

    /// Takes the request apart into its head, its body and the client to send it with.
    pub fn into_parts(self) -> (r: (Request<()>, B, C))
        ensures
            sent_head(r.0) == self.head(),
            sent_type_map(r.0) == self.type_map(),
            r.1 == self.payload(),
            r.2 == self.bound_client(),
    {
        (self.request, self.body, self.client)
    }

    /// Takes the body out.
    pub fn into_body(self) -> (r: B)
        ensures
            r == self.payload(),
    {
        self.body
    }
}

} // verus!
