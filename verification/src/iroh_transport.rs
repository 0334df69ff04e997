//! Peer-to-peer QUIC: whom to connect to and which protocol to ask for.

use iroh::EndpointId;
use vstd::prelude::*;
use vstd::utf8::{encode_utf8, is_ascii_chars_encode_utf8};

use crate::uri::{UriParts, UriView};

verus! {

/// `iroh::EndpointId`, the public key that identifies a peer.
#[verifier::external_type_specification]
#[verifier::external_body]
pub struct ExEndpointId(iroh::EndpointId);

/// The peer that a text identifies, or `None` where it identifies none.
pub uninterp spec fn endpoint_id(source: Seq<char>) -> Option<iroh::EndpointId>;

/// `str::parse` into an `iroh::EndpointId`: succeeds exactly on the texts that
/// [`endpoint_id`] has a peer for, with that peer.
#[verifier::external_body]
fn read_endpoint_id(source: &str) -> (r: Option<EndpointId>)
    ensures
        r == endpoint_id(source@),
{
    source.parse().ok()
}

/// Why a peer cannot be connected to.
#[derive(Clone, Copy, Debug, PartialEq, Eq, Structural)]
pub enum PeerError {
    /// The URI has no host.
    MissingHost,
    /// The host is no public key.
    InvalidKey,
}

impl PeerError {
    /// What to tell a user.
    pub fn message(&self) -> (r: &'static str)
        ensures
            r@ == match *self {
                PeerError::MissingHost => "URI missing host"@,
                PeerError::InvalidKey => "Invalid Iroh Public Key"@,
            },
    {
        match *self {
            PeerError::MissingHost => "URI missing host",
            PeerError::InvalidKey => "Invalid Iroh Public Key",
        }
    }
}

/// The peer that a URI names by its host.
pub open spec fn peer_of(uri: UriView) -> Result<EndpointId, PeerError> {
    match uri.host {
        None => Err(PeerError::MissingHost),
        Some(host) => match endpoint_id(host) {
            None => Err(PeerError::InvalidKey),
            Some(peer) => Ok(peer),
        },
    }
}

/// The protocol that is asked for where none is configured: `n0/navar`.
pub open spec fn default_alpn() -> Seq<u8> {
    seq![0x6eu8, 0x30u8, 0x2fu8, 0x6eu8, 0x61u8, 0x76u8, 0x61u8, 0x72u8]
}

/// The transport plugin over an endpoint.
pub struct IrohTransport<P> {
    endpoint: P,
    alpns: Vec<Vec<u8>>,
}

impl<P> IrohTransport<P> {
    /// The endpoint that connections are made from.
    pub closed spec fn local(&self) -> P {
        self.endpoint
    }

    /// The configured ALPN identifiers, the preferred one first.
    pub closed spec fn configured(&self) -> Seq<Vec<u8>> {
        self.alpns@
    }

    /// Creates a transport.
    pub fn new(endpoint: P, alpns: Vec<Vec<u8>>) -> (r: Self)
        ensures
            r.local() == endpoint,
            r.configured() == alpns@,
    {
        IrohTransport { endpoint, alpns }
    }

    /// The endpoint that connections are made from.
    pub fn endpoint(&self) -> (r: &P)
        ensures
            *r == self.local(),
    {
        &self.endpoint
    }

    /// The ALPN identifier to ask for: the first that is configured, else `n0/navar`.
    pub fn alpn(&self) -> (r: Vec<u8>)
        ensures
            self.configured().len() > 0 ==> r@ == self.configured()[0]@,
            self.configured().len() == 0 ==> r@ == default_alpn(),
    {
        if self.alpns.len() > 0 {
            let source = self.alpns[0].as_slice();
            let mut alpn: Vec<u8> = Vec::with_capacity(source.len());
            alpn.extend_from_slice(source);
            assert(alpn@ =~= source@);
            alpn
        } else {
            let alpn: Vec<u8> = vec![0x6e, 0x30, 0x2f, 0x6e, 0x61, 0x76, 0x61, 0x72];
            assert(alpn@ =~= default_alpn());
            alpn
        }
    }

    /// The peer that a URI names by its host.
    pub fn peer(uri: &UriParts) -> (r: Result<EndpointId, PeerError>)
        ensures
            r == peer_of(uri@),
    {
        match &uri.host {
            None => Err(PeerError::MissingHost),
            Some(host) => match read_endpoint_id(host.as_str()) {
                None => Err(PeerError::InvalidKey),
                Some(peer) => Ok(peer),
            },
        }
    }
}

/// The peer is the one that the host is the key of, whatever else the URI holds. Only a URI
/// without a host, or with one that is no key, is refused, each for its reason.
pub proof fn law_host_names_peer<P>(uri: &UriParts, r: Result<EndpointId, PeerError>)
    requires
        call_ensures(IrohTransport::<P>::peer, (uri,), r),
    ensures
        uri@.host is None ==> (r matches Err(error) && error == PeerError::MissingHost),
        uri@.host matches Some(host) ==> match endpoint_id(host) {
            Some(peer) => r matches Ok(found) && found == peer,
            None => r matches Err(error) && error == PeerError::InvalidKey,
        },
        r == peer_of(uri@),
{
}

/// The protocol that is asked for is the first that was configured, whatever it is, and
/// `n0/navar` exactly where none was.
pub proof fn law_first_protocol_is_asked_for<P>(transport: &IrohTransport<P>, r: Vec<u8>)
    requires
        call_ensures(IrohTransport::<P>::alpn, (transport,), r),
    ensures
        transport.configured().len() > 0 ==> r@ == transport.configured()[0]@,
        transport.configured().len() == 0 ==> r@ == encode_utf8("n0/navar"@),
{
    reveal_strlit("n0/navar");
    is_ascii_chars_encode_utf8("n0/navar"@);
    assert(default_alpn() =~= encode_utf8("n0/navar"@));
}

} // verus!
