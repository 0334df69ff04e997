//! The head of a request, built by `http::request::Builder`.
//!
//! The builder is opaque to the verifier. What it has been given is named by
//! [`request_head`]; once something it was given is refused, it holds no head any more and
//! reports the first refusal, which [`refusal`] names, when the request is finished.

use http::request::Builder;
use http::{Extensions, HeaderMap, HeaderValue, Request};
use vstd::prelude::*;
use vstd::utf8::{encode_scalar, encode_utf8};

use crate::uri::{uri_parse, UriView};

verus! {

/// `http::request::Builder`.
#[verifier::external_type_specification]
#[verifier::external_body]
pub struct ExBuilder(http::request::Builder);

/// `http::Request`.
#[verifier::external_type_specification]
#[verifier::external_body]
#[verifier::reject_recursive_types(T)]
pub struct ExRequest<T>(http::Request<T>);

/// `http::Error`, why a request could not be built.
#[verifier::external_type_specification]
#[verifier::external_body]
pub struct ExHttpError(http::Error);

/// `http::HeaderMap`.
#[verifier::external_type_specification]
#[verifier::external_body]
#[verifier::reject_recursive_types(T)]
pub struct ExHeaderMap<T>(http::HeaderMap<T>);

/// `http::HeaderValue`.
#[verifier::external_type_specification]
#[verifier::external_body]
pub struct ExHeaderValue(http::HeaderValue);

/// `http::Extensions`, a map that holds at most one value of each type.
#[verifier::external_type_specification]
#[verifier::external_body]
pub struct ExExtensions(http::Extensions);

/// Method, target and headers of a request.
#[verifier::ext_equal]
pub struct RequestHead {
    pub method: Seq<char>,
    pub uri: UriView,
    /// The values of each header in the order in which they were appended, under the
    /// header's name in lower case.
    pub headers: Map<Seq<char>, Seq<Seq<u8>>>,
}

impl RequestHead {
    /// The head of a request that has been given nothing.
    pub open spec fn initial() -> RequestHead {
        RequestHead { method: "GET"@, uri: UriView::root(), headers: Map::empty() }
    }

    /// The values under a name in lower case, none if there are none.
    pub open spec fn values(self, name: Seq<char>) -> Seq<Seq<u8>> {
        if self.headers.dom().contains(name) {
            self.headers[name]
        } else {
            Seq::empty()
        }
    }

    /// The head with one more value under `name`, behind those that are there.
    pub open spec fn appended(self, name: Seq<char>, value: Seq<u8>) -> RequestHead {
        let key = lower_case(name);
        RequestHead { headers: self.headers.insert(key, self.values(key).push(value)), ..self }
    }

    /// So few distinct header names that another one always finds room.
    pub open spec fn has_room(self) -> bool {
        self.headers.dom().finite() && self.headers.dom().len() < SAFE_HEADER_NAMES
    }
}

/// A header is appended behind those of its name, however its name is written, and changes
/// nothing else: neither the values under other names nor method and target.
pub proof fn law_header_is_appended(
    head: RequestHead,
    name: Seq<char>,
    value: Seq<u8>,
    other: Seq<char>,
)
    ensures
        head.appended(name, value).values(lower_case(name)) == head.values(lower_case(name)).push(
            value,
        ),
        other != lower_case(name) ==> head.appended(name, value).values(other) == head.values(
            other,
        ),
        head.appended(name, value).method == head.method,
        head.appended(name, value).uri == head.uri,
{
}

/// The hash table behind `http::HeaderMap` never refuses a header while it holds fewer
/// distinct names than this.
pub const SAFE_HEADER_NAMES: usize = 6554;

/// The longest header name.
pub const MAX_HEADER_NAME: usize = 65535;

/// A character of an HTTP token.
pub open spec fn token_char(c: char) -> bool {
    ||| 'a' <= c <= 'z'
    ||| 'A' <= c <= 'Z'
    ||| '0' <= c <= '9'
    ||| c == '!' || c == '#' || c == '$' || c == '%' || c == '&' || c == '\''
    ||| c == '*' || c == '+' || c == '-' || c == '.'
    ||| c == '^' || c == '_' || c == '`' || c == '|' || c == '~'
}

/// An HTTP token: one or more token characters.
pub open spec fn is_token(word: Seq<char>) -> bool {
    word.len() > 0 && forall|i: int| 0 <= i < word.len() ==> token_char(#[trigger] word[i])
}

/// A name that a header can have.
pub open spec fn is_header_name(word: Seq<char>) -> bool {
    is_token(word) && word.len() <= MAX_HEADER_NAME
}

/// A text that a header can have as its value: no control character but the tab.
pub open spec fn is_header_value(word: Seq<char>) -> bool {
    forall|i: int| 0 <= i < word.len() ==> value_char(#[trigger] word[i])
}

/// A character that a header value can hold.
pub open spec fn value_char(c: char) -> bool {
    c == '\t' || (' ' <= c && c != '\u{7f}')
}

/// Bytes that a header can have as its value: no control character but the tab.
pub open spec fn is_header_bytes(value: Seq<u8>) -> bool {
    forall|i: int| 0 <= i < value.len() ==> value_byte(#[trigger] value[i])
}

/// A byte that a header value can hold.
pub open spec fn value_byte(byte: u8) -> bool {
    byte == 9 || (32 <= byte && byte != 127)
}

/// A character can stand in a header value exactly if its bytes can.
proof fn lemma_header_char(c: char)
    ensures
        is_header_bytes(encode_scalar(c as u32)) == value_char(c),
{
    let scalar = c as u32;
    let head = encode_scalar(scalar);
    if scalar < 0x80 {
        assert((scalar & 0x7f) as u8 == scalar) by (bit_vector)
            requires
                scalar < 0x80,
        ;
        assert(head.len() == 1 && head[0] == scalar);
        assert(is_header_bytes(head) == value_byte(head[0]));
    } else {
        let one = ((scalar >> 6) & 0x1F) as u8;
        let two = ((scalar >> 12) & 0x0F) as u8;
        let three = ((scalar >> 18) & 0x7) as u8;
        let last = (scalar & 0x3F) as u8;
        let second = ((scalar >> 6) & 0x3F) as u8;
        let third = ((scalar >> 12) & 0x3F) as u8;
        assert(0xC0 | one >= 0x80u8) by (bit_vector);
        assert(0xE0 | two >= 0x80u8) by (bit_vector);
        assert(0xF0 | three >= 0x80u8) by (bit_vector);
        assert(0x80 | last >= 0x80u8) by (bit_vector);
        assert(0x80 | second >= 0x80u8) by (bit_vector);
        assert(0x80 | third >= 0x80u8) by (bit_vector);
        assert forall|i: int| 0 <= i < head.len() implies value_byte(
            #[trigger] head[i],
        ) by {
            assert(head[i] >= 0x80);
        }
        assert(value_char(c));
    }
}

/// A text can be a header value exactly if its bytes can.
pub(crate) proof fn lemma_header_text(word: Seq<char>)
    ensures
        is_header_value(word) == is_header_bytes(encode_utf8(word)),
    decreases word.len(),
{
    let bytes = encode_utf8(word);
    if word.len() > 0 {
        let head = encode_scalar(word[0] as u32);
        let rest = word.drop_first();
        let tail = encode_utf8(rest);
        lemma_header_text(rest);
        assert(bytes == head + tail);
        lemma_header_char(word[0]);
        assert(is_header_bytes(bytes) == (is_header_bytes(head) && is_header_bytes(tail))) by {
            if is_header_bytes(bytes) {
                assert forall|i: int| 0 <= i < head.len() implies value_byte(
                    #[trigger] head[i],
                ) by {
                    assert(bytes[i] == head[i]);
                }
                assert forall|i: int| 0 <= i < tail.len() implies value_byte(
                    #[trigger] tail[i],
                ) by {
                    assert(bytes[head.len() + i] == tail[i]);
                }
            }
        }
        assert(is_header_value(word) == (value_char(word[0]) && is_header_value(rest))) by {
            if is_header_value(word) {
                assert forall|i: int| 0 <= i < rest.len() implies value_char(
                    #[trigger] rest[i],
                ) by {
                    assert(word[i + 1] == rest[i]);
                }
            }
            if value_char(word[0]) && is_header_value(rest) {
                assert forall|i: int| 0 <= i < word.len() implies value_char(
                    #[trigger] word[i],
                ) by {
                    if i > 0 {
                        assert(word[i] == rest[i - 1]);
                    }
                }
            }
        }
    }
}

/// A letter from `A` to `Z` as the small one, any other character as it is.
pub open spec fn lower_char(c: char) -> char {
    if 'A' <= c <= 'Z' {
        (c as u32 + 32) as char
    } else {
        c
    }
}

/// A word in lower case.
pub open spec fn lower_case(word: Seq<char>) -> Seq<char> {
    word.map_values(|c: char| lower_char(c))
}

/// A word in lower case differs from the word only in the letters from `A` to `Z`, each of
/// which it has as the small one, so a name is found however it is written.
pub proof fn law_lower_case(word: Seq<char>)
    ensures
        lower_case(word).len() == word.len(),
        forall|i: int|
            0 <= i < word.len() ==> {
                let c = word[i];
                let small = #[trigger] lower_case(word)[i];
                &&& 'A' <= c <= 'Z' ==> small as u32 == c as u32 + 32
                &&& !('A' <= c <= 'Z') ==> small == c
            },
        lower_case(lower_case(word)) == lower_case(word),
{
    assert(lower_case(lower_case(word)) =~= lower_case(word));
}

/// What a builder has been given, or `None` once something was refused.
pub uninterp spec fn request_head(builder: http::request::Builder) -> Option<RequestHead>;

/// Why a builder refused what it refused first. It means something only once something was
/// refused.
pub uninterp spec fn refusal(builder: http::request::Builder) -> http::Error;

/// Why `Builder::method` refuses a text that is no method.
pub uninterp spec fn method_refusal(method: Seq<char>) -> http::Error;

/// Why `Builder::uri` refuses a text that is no URI.
pub uninterp spec fn uri_refusal(uri: Seq<char>) -> http::Error;

/// Why `Builder::header` refuses a header where it does: because of its name, else because of
/// its value, else for want of room.
pub uninterp spec fn header_refusal(name: Seq<char>, value: Seq<u8>) -> http::Error;

/// The head of a finished request.
pub uninterp spec fn sent_head(request: http::Request<()>) -> RequestHead;

/// The values of each header in a header map, under the header's name in lower case.
pub uninterp spec fn headers_of(headers: http::HeaderMap<http::HeaderValue>) -> Map<
    Seq<char>,
    Seq<Seq<u8>>,
>;

/// The type map of a builder. It means something only while nothing was refused.
pub uninterp spec fn type_map(builder: http::request::Builder) -> http::Extensions;

/// The number of values in a type map.
pub uninterp spec fn type_count(map: http::Extensions) -> nat;

/// The type map of a finished request.
pub uninterp spec fn sent_type_map(request: http::Request<()>) -> http::Extensions;

/// Whether a type map holds this value under its type: whoever looks the type up finds it.
pub closed spec fn carries<T: Send + Sync + 'static>(map: http::Extensions, value: T) -> bool {
    forall|found: Option<&T>| #[trigger]
        call_ensures(find_extension::<T>, (&map,), found) ==> found == Some(&value)
}

/// `Request::builder`: a builder that has been given nothing, with an empty type map.
#[verifier::external_body]
pub(crate) fn start() -> (r: Builder)
    ensures
        request_head(r) == Some(RequestHead::initial()),
        type_count(type_map(r)) == 0,
{
    Request::builder()
}

/// `Builder::method` with a text: a token becomes the method as it is written, anything
/// else is refused. The type map stays as it is.
#[verifier::external_body]
pub(crate) fn set_method(builder: Builder, method: &str) -> (r: Builder)
    ensures
        request_head(r) == match request_head(builder) {
            Some(head) if is_token(method@) => Some(RequestHead { method: method@, ..head }),
            _ => None,
        },
        request_head(builder) is None ==> refusal(r) == refusal(builder),
        request_head(builder) is Some && request_head(r) is None ==> refusal(r) == method_refusal(
            method@,
        ),
        request_head(r) is Some ==> type_map(r) == type_map(builder),
{
    builder.method(method)
}

/// `Builder::uri` with a text: what `http::Uri` reads from it becomes the target, a text
/// that it refuses is refused. The type map stays as it is.
#[verifier::external_body]
pub(crate) fn set_uri(builder: Builder, uri: &str) -> (r: Builder)
    ensures
        request_head(r) == match (request_head(builder), uri_parse(uri@)) {
            (Some(head), Some(target)) => Some(RequestHead { uri: target, ..head }),
            _ => None,
        },
        request_head(builder) is None ==> refusal(r) == refusal(builder),
        request_head(builder) is Some && request_head(r) is None ==> refusal(r) == uri_refusal(
            uri@,
        ),
        request_head(r) is Some ==> type_map(r) == type_map(builder),
{
    builder.uri(uri)
}

/// `Builder::header` with a text and bytes: appends the value under the name in lower case. A name or
/// a value that a header cannot have is refused; beyond [`SAFE_HEADER_NAMES`] distinct
/// names the header map may refuse the header for want of room. The type map stays as it is.
#[verifier::external_body]
pub(crate) fn add_header(builder: Builder, name: &str, value: &[u8]) -> (r: Builder)
    ensures
        request_head(builder) is None ==> request_head(r) is None,
        !is_header_name(name@) || !is_header_bytes(value@) ==> request_head(r) is None,
        request_head(builder) matches Some(head) ==> {
            &&& request_head(r) is None || request_head(r) == Some(head.appended(name@, value@))
            &&& is_header_name(name@) && is_header_bytes(value@) && head.has_room()
                ==> request_head(r) is Some
        },
        request_head(builder) is None ==> refusal(r) == refusal(builder),
        request_head(builder) is Some && request_head(r) is None ==> refusal(r) == header_refusal(
            name@,
            value@,
        ),
        request_head(r) is Some ==> type_map(r) == type_map(builder),
{
    builder.header(name, value)
}

/// `Builder::extension`: stores a value in the request's type map, where it replaces one of
/// the same type and is found by looking the type up, and leaves the head as it is. A builder
/// that has refused something stores nothing. It holds one value more than before, or as many
/// where one was replaced. That values of other types stay is left unsaid: a contract speaks
/// of one type at a time.
#[verifier::external_body]
pub(crate) fn add_extension<T: Clone + Send + Sync + 'static>(builder: Builder, value: T) -> (r:
    Builder)
    ensures
        request_head(r) == request_head(builder),
        request_head(builder) is None ==> refusal(r) == refusal(builder),
        request_head(r) is Some ==> {
            &&& carries(type_map(r), value)
            &&& type_count(type_map(builder)) <= type_count(type_map(r))
            &&& 0 < type_count(type_map(r)) <= type_count(type_map(builder)) + 1
        },
{
    builder.extension(value)
}

/// `Extensions::get`: the value of a type, none in an empty map. What it finds is told by
/// [`carries`], where a value was stored.
#[verifier::external_body]
pub(crate) fn find_extension<T: Send + Sync + 'static>(map: &Extensions) -> (r: Option<&T>)
    ensures
        type_count(*map) == 0 ==> r is None,
{
    map.get()
}

/// Looks a type up in a type map.
pub(crate) fn look_up<T: Send + Sync + 'static>(map: &Extensions) -> (r: Option<&T>)
    ensures
        forall|value: T| #[trigger] carries(*map, value) ==> r == Some(&value),
        type_count(*map) == 0 ==> r is None,
{
    let r = find_extension::<T>(map);
    assert(call_ensures(find_extension::<T>, (map,), r));
    r
}

/// `Builder::headers_ref`: the headers that the builder has been given, none once something
/// was refused.
#[verifier::external_body]
fn builder_headers(builder: &Builder) -> (r: Option<&HeaderMap<HeaderValue>>)
    ensures
        match (r, request_head(*builder)) {
            (Some(headers), Some(head)) => headers_of(*headers) == head.headers,
            (None, None) => true,
            _ => false,
        },
{
    builder.headers_ref()
}

/// `HeaderMap::contains_key`: whether there is a header of this name, which is to be written
/// in lower case.
#[verifier::external_body]
fn contains_name(headers: &HeaderMap<HeaderValue>, name: &str) -> (r: bool)
    requires
        is_header_name(name@),
        lower_case(name@) == name@,
    ensures
        r == headers_of(*headers).dom().contains(name@),
{
    headers.contains_key(name)
}

/// Whether a builder has been given a header of this name, which is to be written in lower
/// case.
pub(crate) fn has_header(builder: &Builder, name: &str) -> (r: bool)
    requires
        is_header_name(name@),
        lower_case(name@) == name@,
    ensures
        r == (request_head(*builder) matches Some(head) && head.headers.dom().contains(name@)),
{
    match builder_headers(builder) {
        Some(headers) => contains_name(headers, name),
        None => false,
    }
}

/// `Builder::body` with a unit body: the finished request, or the first refusal.
#[verifier::external_body]
pub(crate) fn finish(builder: Builder) -> (r: Result<Request<()>, http::Error>)
    ensures
        r is Ok <==> request_head(builder) is Some,
        r matches Ok(request) ==> request_head(builder) == Some(sent_head(request))
            && sent_type_map(request) == type_map(builder),
        r matches Err(error) ==> error == refusal(builder),
{
    builder.body(())
}

/// `Request::extensions`.
#[verifier::external_body]
pub(crate) fn request_extensions(request: &Request<()>) -> (r: &Extensions)
    ensures
        *r == sent_type_map(*request),
{
    request.extensions()
}

/// `Request::headers`.
#[verifier::external_body]
pub(crate) fn request_headers(request: &Request<()>) -> (r: &HeaderMap<HeaderValue>)
    ensures
        headers_of(*r) == sent_head(*request).headers,
{
    request.headers()
}

} // verus!
