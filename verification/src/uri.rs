//! Request targets.

use vstd::prelude::*;

verus! {

/// What a [`UriParts`] holds.
#[verifier::ext_equal]
pub struct UriView {
    pub scheme: Option<Seq<char>>,
    pub authority: Option<Seq<char>>,
    pub host: Option<Seq<char>>,
    pub port: Option<u16>,
    pub target: Seq<char>,
}

impl UriView {
    /// The target `/`, which a request has until it is given another.
    pub open spec fn root() -> UriView {
        UriView { scheme: None, authority: None, host: None, port: None, target: "/"@ }
    }
}

/// The parts of a URI that connecting to it depends on.
#[derive(Debug)]
pub struct UriParts {
    /// What stands before `://`.
    pub scheme: Option<String>,
    /// User information, host and port, as they are written.
    pub authority: Option<String>,
    /// The host.
    pub host: Option<String>,
    /// The port, if one is written.
    pub port: Option<u16>,
    /// The URI as a whole.
    pub target: String,
}

/// The text of an optional part.
pub open spec fn part_text(part: Option<String>) -> Option<Seq<char>> {
    match part {
        Some(written) => Some(written@),
        None => None,
    }
}

impl View for UriParts {
    type V = UriView;

    open spec fn view(&self) -> UriView {
        UriView {
            scheme: part_text(self.scheme),
            authority: part_text(self.authority),
            host: part_text(self.host),
            port: self.port,
            target: self.target@,
        }
    }
}

/// `http::uri::InvalidUri`, why a text is no URI.
#[verifier::external_type_specification]
#[verifier::external_body]
pub struct ExInvalidUri(http::uri::InvalidUri);

/// What `http::Uri` makes of a text: its parts, or why it refuses the text.
pub uninterp spec fn uri_read(source: Seq<char>) -> Result<UriView, http::uri::InvalidUri>;

/// What `http::Uri` reads from a text, or `None` where it refuses the text.
pub open spec fn uri_parse(source: Seq<char>) -> Option<UriView> {
    match uri_read(source) {
        Ok(parts) => Some(parts),
        Err(_) => None,
    }
}

impl UriParts {
    /// Parses a URI.
    pub fn parse(source: &str) -> (r: Result<UriParts, http::uri::InvalidUri>)
        ensures
            match r {
                Ok(parts) => uri_read(source@) == Ok::<UriView, http::uri::InvalidUri>(parts@),
                Err(error) => uri_read(source@) == Err::<UriView, http::uri::InvalidUri>(error),
            },
            r matches Ok(parts) ==> {
                &&& parts.host is Some <==> parts.authority is Some
                &&& parts.scheme is Some ==> parts.authority is Some
                &&& parts.port is Some ==> parts.authority is Some
            },
    {
        read_uri(source)
    }
}

/// `str::parse` into an `http::Uri`, taken apart by its accessors: what [`uri_read`] says. A host and a port are
/// parts of an authority, and a URI with a scheme has an authority.
#[verifier::external_body]
fn read_uri(source: &str) -> (r: Result<UriParts, http::uri::InvalidUri>)
    ensures
        match r {
            Ok(parts) => uri_read(source@) == Ok::<UriView, http::uri::InvalidUri>(parts@),
            Err(error) => uri_read(source@) == Err::<UriView, http::uri::InvalidUri>(error),
        },
        r matches Ok(parts) ==> {
            &&& parts.host is Some <==> parts.authority is Some
            &&& parts.scheme is Some ==> parts.authority is Some
            &&& parts.port is Some ==> parts.authority is Some
        },
{
    let uri: http::Uri = source.parse()?;
    Ok(UriParts {
        scheme: uri.scheme_str().map(|part| part.to_owned()),
        authority: uri.authority().map(|part| part.to_string()),
        host: uri.host().map(|part| part.to_owned()),
        port: uri.port_u16(),
        target: uri.to_string(),
    })
}

} // verus!
