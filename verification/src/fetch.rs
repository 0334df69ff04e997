//! A curl-like fetch: which stack a URI asks for, and headers as a user writes them.

use vstd::prelude::*;
use vstd::utf8::encode_utf8;

use crate::bound_request::{gained, header_added, law_state_gains_header, BoundRequestBuilder};
use crate::request_head::{header_refusal, is_header_name, is_header_value, RequestHead};
use crate::text::{
    after, before, end_trimmed, law_end_trimmed, law_start_trimmed, same_text, split_first,
    start_trimmed, white_space,
};
use crate::uri::{UriParts, UriView};

verus! {

/// A transport with an application protocol.
#[derive(Clone, Copy, Debug, PartialEq, Eq, Structural)]
pub enum Stack {
    /// HTTP/1.1 or HTTP/2 over TCP, with or without TLS.
    Tcp,
    /// HTTP/1.1 or HTTP/2 over a peer-to-peer connection.
    PeerHttp,
    /// HTTP/3 over a peer-to-peer connection.
    PeerH3,
}

/// The scheme of a URI: `http`, where none is written.
pub open spec fn effective_scheme(uri: UriView) -> Seq<char> {
    match uri.scheme {
        Some(scheme) => scheme,
        None => "http"@,
    }
}

/// The stack that a scheme asks for.
pub open spec fn stack_of(scheme: Seq<char>) -> Option<Stack> {
    if scheme == "http"@ || scheme == "https"@ {
        Some(Stack::Tcp)
    } else if scheme == "iroh+http"@ {
        Some(Stack::PeerHttp)
    } else if scheme == "iroh+h3"@ {
        Some(Stack::PeerH3)
    } else {
        None
    }
}

/// Selects the stack for a URI; `Err` holds a scheme that is not supported.
pub fn select_stack(uri: &UriParts) -> (r: Result<Stack, String>)
    ensures
        match r {
            Ok(stack) => stack_of(effective_scheme(uri@)) == Some(stack),
            Err(scheme) => scheme@ == effective_scheme(uri@) && stack_of(scheme@) is None,
        },
{
    let scheme = match &uri.scheme {
        Some(scheme) => scheme.as_str(),
        None => "http",
    };
    if same_text(scheme, "http") || same_text(scheme, "https") {
        Ok(Stack::Tcp)
    } else if same_text(scheme, "iroh+http") {
        Ok(Stack::PeerHttp)
    } else if same_text(scheme, "iroh+h3") {
        Ok(Stack::PeerH3)
    } else {
        Err(scheme.to_owned())
    }
}

/// The ALPN identifiers of a peer-to-peer stack: the one that is named like its scheme.
pub fn peer_alpns(stack: Stack) -> (r: Vec<Vec<u8>>)
    ensures
        stack == Stack::Tcp ==> r@.len() == 0,
        stack != Stack::Tcp ==> r@.len() == 1,
        stack == Stack::PeerHttp ==> r@[0]@ == encode_utf8("iroh+http"@),
        stack == Stack::PeerH3 ==> r@[0]@ == encode_utf8("iroh+h3"@),
{
    let name = match stack {
        Stack::Tcp => return Vec::new(),
        Stack::PeerHttp => "iroh+http",
        Stack::PeerH3 => "iroh+h3",
    };
    let mut alpn: Vec<u8> = Vec::new();
    alpn.extend_from_slice(name.as_bytes());
    assert(alpn@ =~= encode_utf8(name@));
    let mut alpns: Vec<Vec<u8>> = Vec::new();
    alpns.push(alpn);
    alpns
}

/// A text without the white space around it.
pub open spec fn trimmed(text: Seq<char>) -> Seq<char> {
    end_trimmed(start_trimmed(text))
}

/// The name and the value of a header that is written with a colon between them.
pub open spec fn written_header(text: Seq<char>) -> Option<(Seq<char>, Seq<char>)> {
    if text.contains(':') {
        Some((trimmed(before(text, ':')), trimmed(after(text, ':'))))
    } else {
        None
    }
}

/// Reads a header that is written as `name: value`.
pub fn parse_header<'a>(text: &'a str) -> (r: Option<(&'a str, &'a str)>)
    ensures
        match r {
            Some((name, value)) => written_header(text@) == Some((name@, value@)),
            None => written_header(text@) is None,
        },
{
    match split_first(text, ':') {
        (name, Some(value)) => Some(
            (name.trim_start().trim_end(), value.trim_start().trim_end()),
        ),
        (_, None) => None,
    }
}

/// Whether `inner` is a text without the white space around it.
pub open spec fn is_core(text: Seq<char>, inner: Seq<char>) -> bool {
    &&& exists|start: int|
        {
            &&& 0 <= start <= text.len() - inner.len()
            &&& inner == #[trigger] text.subrange(start, start + inner.len())
            &&& forall|i: int|
                0 <= i < start || start + inner.len() <= i < text.len() ==> white_space(
                    #[trigger] text[i],
                )
        }
    &&& inner.len() > 0 ==> !white_space(inner[0]) && !white_space(inner[inner.len() - 1])
}

/// Trimming removes the white space around a text, all of it, and nothing else.
pub proof fn law_trimmed(text: Seq<char>)
    ensures
        is_core(text, trimmed(text)),
{
    let tail = start_trimmed(text);
    let inner = trimmed(text);
    law_start_trimmed(text);
    law_end_trimmed(tail);
    let start = text.len() - tail.len();
    assert(inner =~= text.subrange(start, start + inner.len()));
    assert forall|i: int| 0 <= i < start || start + inner.len() <= i < text.len() implies
        white_space(#[trigger] text[i]) by {
        if i >= start {
            assert(tail[i - start] == text[i]);
        }
    }
    if inner.len() > 0 {
        assert(inner[0] == tail[0]);
    }
}

/// A header is read wherever there is a colon: what stands before the first colon is its name
/// and what stands behind it its value, colons in it included, each without the white space
/// around it. A text without a colon is no header.
pub proof fn law_header_is_read<'a>(
    text: &'a str,
    r: Option<(&'a str, &'a str)>,
    head: Seq<char>,
    tail: Seq<char>,
)
    requires
        call_ensures(parse_header, (text,), r),
    ensures
        r is Some <==> text@.contains(':'),
        text@ == head.push(':') + tail && !head.contains(':') ==> (r matches Some((name, value))
            && is_core(head, name@) && is_core(tail, value@)),
{
    if text@ == head.push(':') + tail && !head.contains(':') {
        crate::text::lemma_before_after(head, ':', tail);
        assert(text@[head.len() as int] == ':');
        law_trimmed(head);
        law_trimmed(tail);
    }
}

/// The stack depends on the scheme alone: TCP for `http` and `https`, and where no scheme is
/// written, HTTP/1.1 or HTTP/2 to a peer for `iroh+http` and HTTP/3 to a peer for `iroh+h3`.
/// Any other scheme is refused and named.
pub proof fn law_scheme_selects_stack(uri: &UriParts, r: Result<Stack, String>)
    requires
        call_ensures(select_stack, (uri,), r),
    ensures
        match uri@.scheme {
            None => r matches Ok(stack) && stack == Stack::Tcp,
            Some(scheme) => {
                &&& scheme == "http"@ || scheme == "https"@ ==> (r matches Ok(stack) && stack
                    == Stack::Tcp)
                &&& scheme == "iroh+http"@ ==> (r matches Ok(stack) && stack == Stack::PeerHttp)
                &&& scheme == "iroh+h3"@ ==> (r matches Ok(stack) && stack == Stack::PeerH3)
                &&& scheme != "http"@ && scheme != "https"@ && scheme != "iroh+http"@ && scheme
                    != "iroh+h3"@ ==> (r matches Err(named) && named@ == scheme)
            },
        },
{
    reveal_strlit("http");
    reveal_strlit("https");
    reveal_strlit("iroh+http");
    reveal_strlit("iroh+h3");
    assert("http"@.len() == 4 && "https"@.len() == 5 && "iroh+http"@.len() == 9
        && "iroh+h3"@.len() == 7);
}

/// `states` are the builder's states as it is given headers as a user wrote them: one that
/// is written without a colon changes nothing.
pub open spec fn headers_added(texts: Seq<String>, states: Seq<Option<RequestHead>>) -> bool {
    &&& states.len() == texts.len() + 1
    &&& forall|i: int|
        0 <= i < texts.len() ==> match written_header((#[trigger] texts[i])@) {
            Some((name, value)) => header_added(states[i], name, value, states[i + 1]),
            None => states[i + 1] == states[i],
        }
}

/// Whether the header that is refused first, as a builder is given headers as a user wrote
/// them, is refused with this error.
pub open spec fn first_refused(
    texts: Seq<String>,
    states: Seq<Option<RequestHead>>,
    error: http::Error,
) -> bool {
    exists|i: int|
        {
            &&& 0 <= i < texts.len()
            &&& states[i] is Some
            &&& states[i + 1] is None
            &&& written_header((#[trigger] texts[i])@) matches Some((name, value)) && error
                == header_refusal(name, encode_utf8(value))
        }
}

/// Gives a builder headers as a user wrote them, in order.
pub fn add_headers<C>(builder: BoundRequestBuilder<C>, texts: &Vec<String>) -> (r:
    BoundRequestBuilder<C>)
    ensures
        exists|states: Seq<Option<RequestHead>>|
            {
                &&& #[trigger] headers_added(texts@, states)
                &&& states.first() == builder.head()
                &&& states.last() == r.head()
                &&& builder.head() is Some && r.head() is None ==> first_refused(
                    texts@,
                    states,
                    r.refused(),
                )
            },
        builder.head() is None ==> r.refused() == builder.refused(),
        r.head() is Some ==> r.type_map() == builder.type_map(),
        r.bound_client() == builder.bound_client(),
{
    let mut current = builder;
    let ghost mut states: Seq<Option<RequestHead>> = seq![builder.head()];
    let mut at: usize = 0;
    assert(texts@.take(0).len() == 0);
    while at < texts.len()
        invariant
            at <= texts@.len(),
            headers_added(texts@.take(at as int), states),
            states.first() == builder.head(),
            states.last() == current.head(),
            builder.head() is None ==> current.head() is None && current.refused()
                == builder.refused(),
            builder.head() is Some && current.head() is None ==> first_refused(
                texts@.take(at as int),
                states,
                current.refused(),
            ),
            current.head() is Some ==> current.type_map() == builder.type_map(),
            current.bound_client() == builder.bound_client(),
        decreases texts@.len() - at,
    {
        let ghost known = states;
        let ghost before = current;
        if let Some((name, value)) = parse_header(texts[at].as_str()) {
            current = current.header(name, value);
        }
        proof {
            states = known.push(current.head());
            assert forall|i: int| 0 <= i < at + 1 implies match written_header(
                (#[trigger] texts@.take(at + 1)[i])@,
            ) {
                Some((name, value)) => header_added(states[i], name, value, states[i + 1]),
                None => states[i + 1] == states[i],
            } by {
                if i < at {
                    assert(texts@.take(at as int)[i] == texts@[i]);
                }
            }
            if builder.head() is Some && current.head() is None {
                if before.head() is Some {
                    assert(texts@.take(at + 1)[at as int] == texts@[at as int]);
                    assert(states[at as int] is Some && states[at + 1] is None);
                } else {
                    let i = choose|i: int|
                        {
                            &&& 0 <= i < at
                            &&& known[i] is Some
                            &&& known[i + 1] is None
                            &&& written_header((#[trigger] texts@.take(at as int)[i])@) matches Some(
                                (name, value),
                            ) && before.refused() == header_refusal(name, encode_utf8(value))
                        };
                    assert(texts@.take(at + 1)[i] == texts@.take(at as int)[i]);
                    assert(states[i] is Some && states[i + 1] is None);
                }
                assert(first_refused(texts@.take(at + 1), states, current.refused()));
            }
        }
        at = at + 1;
    }
    assert(texts@.take(at as int) =~= texts@);
    current
}

/// Every header that a user wrote with a colon is given, in order: each that is not refused is
/// appended under its name, with nothing else changed, and the first that is refused is the
/// last that counts. A text without a colon changes nothing.
pub proof fn law_headers_are_given(
    texts: Seq<String>,
    states: Seq<Option<RequestHead>>,
    i: int,
    head: Seq<char>,
    tail: Seq<char>,
)
    requires
        headers_added(texts, states),
        0 <= i < texts.len(),
    ensures
        states.len() == texts.len() + 1,
        states[i] is None ==> states[i + 1] is None,
        !texts[i]@.contains(':') ==> states[i + 1] == states[i],
        texts[i]@ == head.push(':') + tail && !head.contains(':') ==> exists|
            name: Seq<char>,
            value: Seq<char>,
        |
            {
                &&& #[trigger] is_core(head, name)
                &&& #[trigger] is_core(tail, value)
                &&& states[i + 1] is Some ==> is_header_name(name) && is_header_value(value)
                &&& states[i] matches Some(old_head) ==> {
                    &&& states[i + 1] matches Some(next) ==> gained(
                        old_head,
                        name,
                        encode_utf8(value),
                        next,
                    )
                    &&& is_header_name(name) && is_header_value(value) && old_head.has_room()
                        ==> states[i + 1] is Some
                }
            },
{
    let text = texts[i]@;
    assert(written_header(texts[i]@) == written_header(text));
    if text.contains(':') {
        let name = trimmed(before(text, ':'));
        let value = trimmed(after(text, ':'));
        assert(header_added(states[i], name, value, states[i + 1]));
        law_state_gains_header(states[i], name, value, states[i + 1]);
    }
    if text == head.push(':') + tail && !head.contains(':') {
        crate::text::lemma_before_after(head, ':', tail);
        assert(text[head.len() as int] == ':');
        law_trimmed(head);
        law_trimmed(tail);
        assert(is_core(head, trimmed(head)) && is_core(tail, trimmed(tail)));
    }
}

/// Headers are given to a builder as [`law_headers_are_given`] says, all of them, beginning
/// with what the builder holds and ending with what it holds then. What is refused is the
/// first header that is refused, or what was refused before. Texts without a colon leave the
/// builder as it is.
pub proof fn law_all_headers_are_given<C>(
    builder: BoundRequestBuilder<C>,
    texts: &Vec<String>,
    r: BoundRequestBuilder<C>,
)
    requires
        call_ensures(add_headers::<C>, (builder, texts), r),
    ensures
        r.bound_client() == builder.bound_client(),
        builder.head() is None ==> r.head() is None && r.refused() == builder.refused(),
        (forall|i: int| 0 <= i < texts@.len() ==> !(#[trigger] texts@[i])@.contains(':'))
            ==> r.head() == builder.head(),
        exists|states: Seq<Option<RequestHead>>|
            {
                &&& #[trigger] headers_added(texts@, states)
                &&& states[0] == builder.head()
                &&& states[texts@.len() as int] == r.head()
            },
        builder.head() is Some && r.head() is None ==> exists|
            i: int,
            name: Seq<char>,
            value: Seq<char>,
        |
            {
                &&& 0 <= i < texts@.len()
                &&& #[trigger] is_core(before((#[trigger] texts@[i])@, ':'), name)
                &&& #[trigger] is_core(after(texts@[i]@, ':'), value)
                &&& r.refused() == header_refusal(name, encode_utf8(value))
            },
{
    let states = choose|states: Seq<Option<RequestHead>>|
        {
            &&& #[trigger] headers_added(texts@, states)
            &&& states.first() == builder.head()
            &&& states.last() == r.head()
            &&& builder.head() is Some && r.head() is None ==> first_refused(
                texts@,
                states,
                r.refused(),
            )
        };
    lemma_states(texts@, states, texts@.len() as int);
    if builder.head() is Some && r.head() is None {
        let i = choose|i: int|
            {
                &&& 0 <= i < texts@.len()
                &&& states[i] is Some
                &&& states[i + 1] is None
                &&& written_header((#[trigger] texts@[i])@) matches Some((name, value))
                    && r.refused() == header_refusal(name, encode_utf8(value))
            };
        law_trimmed(before(texts@[i]@, ':'));
        law_trimmed(after(texts@[i]@, ':'));
        assert(is_core(before(texts@[i]@, ':'), trimmed(before(texts@[i]@, ':'))));
    }
}

/// A refusal stays, and texts without a colon change nothing.
proof fn lemma_states(texts: Seq<String>, states: Seq<Option<RequestHead>>, upto: int)
    requires
        headers_added(texts, states),
        0 <= upto <= texts.len(),
    ensures
        states[0] is None ==> states[upto] is None,
        (forall|i: int| 0 <= i < texts.len() ==> !(#[trigger] texts[i])@.contains(':'))
            ==> states[upto] == states[0],
    decreases upto,
{
    if upto > 0 {
        lemma_states(texts, states, upto - 1);
        law_headers_are_given(texts, states, upto - 1, Seq::empty(), Seq::empty());
    }
}

} // verus!
