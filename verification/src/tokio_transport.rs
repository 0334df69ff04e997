//! TCP with optional TLS: what to connect to and whom to trust.

use rustls::pki_types::{CertificateDer, ServerName};
use rustls::RootCertStore;
use vstd::prelude::*;
use vstd::utf8::{encode_utf8, is_ascii_chars_encode_utf8};

use crate::text::same_text;
use crate::uri::{UriParts, UriView};

verus! {

/// `rustls::RootCertStore`, the certificates that a TLS connection trusts.
#[verifier::external_type_specification]
#[verifier::external_body]
pub struct ExRootCertStore(rustls::RootCertStore);

/// `rustls::pki_types::ServerName`, a name that a server can prove to have.
#[verifier::external_type_specification]
#[verifier::external_body]
pub struct ExServerName<'a>(rustls::pki_types::ServerName<'a>);

/// What a trust anchor holds.
#[verifier::ext_equal]
pub struct Anchor {
    pub subject: Seq<u8>,
    pub public_key: Seq<u8>,
    pub name_constraints: Option<Seq<u8>>,
}

/// The trust anchors of a store, in order.
pub uninterp spec fn anchors_of(store: rustls::RootCertStore) -> Seq<Anchor>;

/// The trust anchors of a store that held `anchors`, followed by the roots of
/// `webpki_roots`.
pub uninterp spec fn with_web_roots(anchors: Seq<Anchor>) -> Seq<Anchor>;

/// The trust anchor that a DER-encoded certificate gives, or `None` where it gives none.
pub uninterp spec fn anchor_in(certificate: Seq<u8>) -> Option<Anchor>;

/// The server name that a host gives, or `None` where it gives none.
pub uninterp spec fn server_name(host: Seq<char>) -> Option<
    rustls::pki_types::ServerName<'static>,
>;

/// `RootCertStore::empty`.
#[verifier::external_body]
fn no_roots() -> (r: RootCertStore)
    ensures
        anchors_of(r) == Seq::<Anchor>::empty(),
{
    RootCertStore::empty()
}

/// `RootCertStore::extend` with `webpki_roots::TLS_SERVER_ROOTS`: appends these roots, the
/// same ones whatever the store holds.
#[verifier::external_body]
fn add_web_roots(store: &mut RootCertStore)
    ensures
        anchors_of(*final(store)) == with_web_roots(anchors_of(*old(store))),
        anchors_of(*final(store)) == anchors_of(*old(store)) + with_web_roots(
            Seq::<Anchor>::empty(),
        ),
{
    store.extend(webpki_roots::TLS_SERVER_ROOTS.iter().cloned());
}

/// `RootCertStore::add`: appends the trust anchor of a certificate, or leaves the store as
/// it is where the certificate gives none.
#[verifier::external_body]
fn add_root(store: &mut RootCertStore, certificate: Vec<u8>) -> (r: bool)
    ensures
        r == (anchor_in(certificate@) is Some),
        anchors_of(*final(store)) == match anchor_in(certificate@) {
            Some(anchor) => anchors_of(*old(store)).push(anchor),
            None => anchors_of(*old(store)),
        },
{
    store.add(CertificateDer::from(certificate)).is_ok()
}

/// `ServerName::try_from(String)`: succeeds exactly on the hosts that [`server_name`] has a
/// name for, with that name.
#[verifier::external_body]
fn read_server_name(host: String) -> (r: Option<ServerName<'static>>)
    ensures
        r == server_name(host@),
{
    ServerName::try_from(host).ok()
}

/// A number in decimal digits.
pub open spec fn decimal(number: nat) -> Seq<char>
    decreases number,
{
    let digit = (('0' as u32) + number % 10) as char;
    if number < 10 {
        seq![digit]
    } else {
        decimal(number / 10).push(digit)
    }
}

/// A digit as a text.
fn digit_text(digit: u16) -> (r: &'static str)
    requires
        digit < 10,
    ensures
        r@ == seq![(('0' as u32) + digit) as char],
{
    proof {
        reveal_strlit("0");
        reveal_strlit("1");
        reveal_strlit("2");
        reveal_strlit("3");
        reveal_strlit("4");
        reveal_strlit("5");
        reveal_strlit("6");
        reveal_strlit("7");
        reveal_strlit("8");
        reveal_strlit("9");
    }
    let r = match digit {
        0 => "0",
        1 => "1",
        2 => "2",
        3 => "3",
        4 => "4",
        5 => "5",
        6 => "6",
        7 => "7",
        8 => "8",
        _ => "9",
    };
    assert(r@ =~= seq![(('0' as u32) + digit) as char]);
    r
}

/// Appends a number in decimal digits to a text.
fn append_decimal(text: &mut String, number: u16)
    ensures
        final(text)@ == old(text)@ + decimal(number as nat),
    decreases number,
{
    if number >= 10 {
        append_decimal(text, number / 10);
    }
    text.append(digit_text(number % 10));
    assert(text@ =~= old(text)@ + decimal(number as nat));
}

/// A host and a port with a colon between them, the port in decimal digits.
fn join_address(host: &str, port: u16) -> (r: String)
    ensures
        r@ == host@ + seq![':'] + decimal(port as nat),
{
    let mut address = host.to_owned();
    proof {
        reveal_strlit(":");
        assert(":"@ =~= seq![':']);
    }
    address.append(":");
    append_decimal(&mut address, port);
    address
}

/// Why a connection cannot be made.
#[derive(Clone, Copy, Debug, PartialEq, Eq, Structural)]
pub enum ConnectError {
    /// The URI has no host.
    MissingHost,
    /// The host has no address.
    NoAddress,
    /// The host is no name that a TLS server can prove to have.
    InvalidServerName,
}

impl ConnectError {
    /// What to tell a user.
    pub fn message(&self) -> (r: &'static str)
        ensures
            r@ == match *self {
                ConnectError::MissingHost => "URI missing host"@,
                ConnectError::NoAddress => "DNS resolution failed"@,
                ConnectError::InvalidServerName => "invalid DNS name"@,
            },
    {
        match *self {
            ConnectError::MissingHost => "URI missing host",
            ConnectError::NoAddress => "DNS resolution failed",
            ConnectError::InvalidServerName => "invalid DNS name",
        }
    }
}

/// What a TCP connection cannot do.
#[derive(Clone, Copy, Debug, PartialEq, Eq, Structural)]
pub enum Unsupported {
    /// Open a stream with one half.
    Unidirectional,
    /// Accept a stream.
    Inbound,
}

impl Unsupported {
    /// What to tell a user.
    pub fn message(&self) -> (r: &'static str)
        ensures
            r@ == match *self {
                Unsupported::Unidirectional =>
                    "TokioTransport: unidirectional streams are not supported"@,
                Unsupported::Inbound =>
                    "TokioTransport: accepting inbound streams is not supported"@,
            },
    {
        match *self {
            Unsupported::Unidirectional =>
                "TokioTransport: unidirectional streams are not supported",
            Unsupported::Inbound => "TokioTransport: accepting inbound streams is not supported",
        }
    }
}

/// Whether a URI asks for TLS.
pub open spec fn asks_tls(uri: UriView) -> bool {
    uri.scheme == Some("https"@)
}

/// The port of a URI: the one that is written, else that of its scheme.
pub open spec fn effective_port(uri: UriView) -> u16 {
    match uri.port {
        Some(port) => port,
        None => if asks_tls(uri) {
            443
        } else {
            80
        },
    }
}

/// TLS is asked for by the scheme alone, and exactly by `https`: URIs with one scheme agree on
/// it, whatever else they hold. A written port is the port, whatever the scheme; without one
/// it is 443 where TLS is asked for and 80 where it is not.
pub proof fn law_scheme_decides_tls(uri: UriView, other: UriView)
    ensures
        asks_tls(uri) <==> uri.scheme == Some("https"@),
        uri.scheme == other.scheme ==> asks_tls(uri) == asks_tls(other),
        uri.port is Some ==> Some(effective_port(uri)) == uri.port,
        uri.port is None && uri.scheme == Some("https"@) ==> effective_port(uri) == 443,
        uri.port is None && uri.scheme != Some("https"@) ==> effective_port(uri) == 80,
{
}

/// What is connected to is what the URI says: its host as it is written, its port or that of
/// its scheme, and TLS exactly for `https`; the address is the host, a colon and the port in
/// decimal digits. Only a URI without a host is refused. Two URIs that differ in neither host,
/// port nor scheme ask for the same.
pub proof fn law_target_is_what_uri_says(
    uri: &UriParts,
    r: Result<Target, ConnectError>,
    other: &UriParts,
    o: Result<Target, ConnectError>,
)
    requires
        call_ensures(TokioTransport::target, (uri,), r),
        call_ensures(TokioTransport::target, (other,), o),
    ensures
        r is Ok <==> uri@.host is Some,
        r matches Err(error) ==> error == ConnectError::MissingHost,
        r matches Ok(target) ==> {
            &&& Some(target.host@) == uri@.host
            &&& target.tls <==> uri@.scheme == Some("https"@)
            &&& uri@.port matches Some(port) ==> target.port == port
            &&& uri@.port is None ==> target.port == if target.tls {
                443
            } else {
                80int
            }
            &&& exists|digits: Seq<char>|
                {
                    &&& target.address@ == target.host@ + seq![':'] + digits
                    &&& #[trigger] number_of(digits) == target.port
                    &&& are_digits(digits)
                    &&& digits[0] == '0' ==> digits.len() == 1
                }
        },
        match (r, o) {
            (Ok(target), Ok(found)) => {
                &&& uri@.scheme == other@.scheme ==> target.tls == found.tls
                &&& uri@.host == other@.host && target.port == found.port ==> target.address@
                    == found.address@
            },
            _ => true,
        },
{
    if let Ok(target) = r {
        law_decimal_reads_back(target.port as nat);
        assert(number_of(decimal(target.port as nat)) == target.port);
    }
}

/// The number that digits stand for.
pub open spec fn number_of(digits: Seq<char>) -> nat
    decreases digits.len(),
{
    if digits.len() == 0 {
        0
    } else {
        number_of(digits.drop_last()) * 10 + (digits.last() as u32 - '0' as u32) as nat
    }
}

/// Whether a text is one or more of the digits `0` to `9`.
pub open spec fn are_digits(text: Seq<char>) -> bool {
    text.len() > 0 && forall|i: int| 0 <= i < text.len() ==> '0' <= #[trigger] text[i] <= '9'
}

/// A number in decimal digits stands for the number, and begins with a 0 only if it is one
/// digit.
pub proof fn law_decimal_reads_back(number: nat)
    ensures
        are_digits(decimal(number)),
        number_of(decimal(number)) == number,
        decimal(number)[0] == '0' ==> number == 0 && decimal(number).len() == 1,
    decreases number,
{
    let digit = (('0' as u32) + number % 10) as char;
    let digits = decimal(number);
    assert(digit as u32 == '0' as u32 + number % 10);
    if number < 10 {
        assert(digits.drop_last() =~= Seq::<char>::empty());
        assert(number_of(Seq::<char>::empty()) == 0);
        assert(digits.last() == digit);
    } else {
        let init = decimal(number / 10);
        law_decimal_reads_back(number / 10);
        assert(digits.drop_last() =~= init);
        assert(digits.last() == digit);
        assert(number_of(digits) == number_of(init) * 10 + number % 10);
        assert forall|i: int| 0 <= i < digits.len() implies '0' <= #[trigger] digits[i]
            <= '9' by {
            if i < init.len() {
                assert(digits[i] == init[i]);
            }
        }
        assert(digits[0] == init[0]);
    }
}

/// What a URI asks to connect to.
#[derive(Debug)]
pub struct Target {
    /// The host, as it is written.
    pub host: String,
    /// The port.
    pub port: u16,
    /// Host and port, as a name service takes them.
    pub address: String,
    /// Whether to speak TLS.
    pub tls: bool,
}

/// A connection that is ready to be opened: a resolved address, and for TLS the name that
/// the server has to prove.
#[derive(Debug)]
pub struct TokioConnection<N> {
    /// The resolved address.
    pub addr: N,
    /// The server's name, for TLS.
    pub tls: Option<ServerName<'static>>,
}

impl<N> TokioConnection<N> {
    /// Refuses to open a stream with a sending half.
    pub fn open_unidirectional<W>(&self) -> (r: Result<W, Unsupported>)
        ensures
            r == Err::<W, Unsupported>(Unsupported::Unidirectional),
    {
        Err(Unsupported::Unidirectional)
    }

    /// Refuses to accept a stream with both halves.
    pub fn accept_bidirectional<B>(&self) -> (r: Result<B, Unsupported>)
        ensures
            r == Err::<B, Unsupported>(Unsupported::Inbound),
    {
        Err(Unsupported::Inbound)
    }

    /// Refuses to accept a stream with a receiving half.
    pub fn accept_unidirectional<R>(&self) -> (r: Result<R, Unsupported>)
        ensures
            r == Err::<R, Unsupported>(Unsupported::Inbound),
    {
        Err(Unsupported::Inbound)
    }
}

/// The TCP transport plugin: whom to trust and which protocols to offer over TLS.
pub struct TokioTransport {
    roots: RootCertStore,
    alpns: Vec<Vec<u8>>,
}

/// The trust anchors of a transport with an additional CA certificate: the web's roots, and
/// that of the certificate where it gives one.
pub open spec fn trusted(ca_cert: Option<Seq<u8>>) -> Seq<Anchor> {
    let web = with_web_roots(Seq::empty());
    match ca_cert {
        Some(certificate) => match anchor_in(certificate) {
            Some(anchor) => web.push(anchor),
            None => web,
        },
        None => web,
    }
}

impl TokioTransport {
    /// The trust anchors.
    pub closed spec fn anchors(&self) -> Seq<Anchor> {
        anchors_of(self.roots)
    }

    /// The ALPN identifiers to offer, the preferred one first.
    pub closed spec fn offered(&self) -> Seq<Vec<u8>> {
        self.alpns@
    }

    /// Creates a transport.
    ///
    /// `alpns` are the ALPN identifiers to offer, `ca_cert` an additional CA certificate in
    /// DER; one that cannot be read is ignored.
    pub fn new(alpns: Vec<Vec<u8>>, ca_cert: Option<Vec<u8>>) -> (r: Self)
        ensures
            r.anchors() == trusted(
                match ca_cert {
                    Some(certificate) => Some(certificate@),
                    None => None,
                },
            ),
            r.offered() == alpns@,
    {
        let mut roots = no_roots();
        add_web_roots(&mut roots);
        if let Some(certificate) = ca_cert {
            let _ = add_root(&mut roots, certificate);
        }
        TokioTransport { roots, alpns }
    }

    /// Takes the transport apart into its trust anchors and its ALPN identifiers.
    pub fn into_parts(self) -> (r: (RootCertStore, Vec<Vec<u8>>))
        ensures
            anchors_of(r.0) == self.anchors(),
            r.1@ == self.offered(),
    {
        (self.roots, self.alpns)
    }

    /// Decides what to connect to for a URI.
    pub fn target(uri: &UriParts) -> (r: Result<Target, ConnectError>)
        ensures
            match r {
                Ok(target) => {
                    &&& uri@.host == Some(target.host@)
                    &&& target.tls <==> uri@.scheme == Some("https"@)
                    &&& target.port == match uri@.port {
                        Some(port) => port,
                        None => if uri@.scheme == Some("https"@) {
                            443
                        } else {
                            80
                        },
                    }
                    &&& target.port == effective_port(uri@)
                    &&& target.address@ == target.host@ + seq![':'] + decimal(target.port as nat)
                    &&& target.tls == asks_tls(uri@)
                },
                Err(error) => uri@.host is None && error == ConnectError::MissingHost,
            },
    {
        let host = match &uri.host {
            Some(host) => host,
            None => return Err(ConnectError::MissingHost),
        };
        let tls = match &uri.scheme {
            Some(scheme) => same_text(scheme.as_str(), "https"),
            None => false,
        };
        let port: u16 = match uri.port {
            Some(port) => port,
            None => if tls {
                443
            } else {
                80
            },
        };
        let address = join_address(host.as_str(), port);
        Ok(Target { host: host.clone(), port, address, tls })
    }

    /// Makes the connection out of a target and the first address that was found for it.
    pub fn connection<N>(target: Target, resolved: Option<N>) -> (r: Result<
        TokioConnection<N>,
        ConnectError,
    >)
        ensures
            match r {
                Ok(connection) => {
                    &&& resolved == Some(connection.addr)
                    &&& !target.tls ==> connection.tls is None
                    &&& target.tls ==> connection.tls is Some && connection.tls == server_name(
                        target.host@,
                    )
                },
                Err(error) => {
                    ||| resolved is None && error == ConnectError::NoAddress
                    ||| resolved is Some && target.tls && server_name(target.host@) is None
                        && error == ConnectError::InvalidServerName
                },
            },
    {
        let addr = match resolved {
            Some(addr) => addr,
            None => return Err(ConnectError::NoAddress),
        };
        if target.tls {
            match read_server_name(target.host) {
                Some(name) => Ok(TokioConnection { addr, tls: Some(name) }),
                None => Err(ConnectError::InvalidServerName),
            }
        } else {
            Ok(TokioConnection { addr, tls: None })
        }
    }
}

/// A transport trusts the web's roots, in their order and before anything else, and at most
/// one anchor more: that of the additional certificate where it gives one. It offers what it
/// was told to offer, `h2` and then `http/1.1` unless told otherwise.
pub proof fn law_transport_trusts_and_offers(
    alpns: Vec<Vec<u8>>,
    ca_cert: Option<Vec<u8>>,
    r: TokioTransport,
    d: TokioTransport,
)
    requires
        call_ensures(TokioTransport::new, (alpns, ca_cert), r),
        call_ensures(<TokioTransport as Default>::default, (), d),
    ensures
        r.offered() == alpns@,
        r.anchors().take(with_web_roots(Seq::empty()).len() as int) == with_web_roots(Seq::empty()),
        ca_cert is None ==> r.anchors() == with_web_roots(Seq::empty()),
        ca_cert matches Some(certificate) ==> {
            &&& anchor_in(certificate@) is None ==> r.anchors() == with_web_roots(Seq::empty())
            &&& anchor_in(certificate@) matches Some(anchor) ==> r.anchors().len()
                == with_web_roots(Seq::empty()).len() + 1 && r.anchors().last() == anchor
        },
        d.anchors() == with_web_roots(Seq::empty()),
        d.offered().len() == 2,
        d.offered()[0]@ == encode_utf8("h2"@),
        d.offered()[1]@ == encode_utf8("http/1.1"@),
{
    let web = with_web_roots(Seq::empty());
    assert(web.take(web.len() as int) =~= web);
    if r.anchors() != web {
        assert(r.anchors().take(web.len() as int) =~= web);
    }
    reveal_strlit("h2");
    reveal_strlit("http/1.1");
    is_ascii_chars_encode_utf8("h2"@);
    is_ascii_chars_encode_utf8("http/1.1"@);
    assert(d.offered()[0]@ =~= encode_utf8("h2"@));
    assert(d.offered()[1]@ =~= encode_utf8("http/1.1"@));
}

/// The ALPN identifiers that a transport offers unless told otherwise: HTTP/2, then
/// HTTP/1.1.
pub open spec fn default_offer(alpns: Seq<Vec<u8>>) -> bool {
    &&& alpns.len() == 2
    &&& alpns[0]@ == seq![0x68u8, 0x32u8]
    &&& alpns[1]@ == seq![0x68u8, 0x74u8, 0x74u8, 0x70u8, 0x2fu8, 0x31u8, 0x2eu8, 0x31u8]
}

impl Default for TokioTransport {
    fn default() -> (r: Self)
        ensures
            r.anchors() == trusted(None),
            default_offer(r.offered()),
    {
        let h2: Vec<u8> = vec![0x68, 0x32];
        let h1: Vec<u8> = vec![0x68, 0x74, 0x74, 0x70, 0x2f, 0x31, 0x2e, 0x31];
        TokioTransport::new(vec![h2, h1], None)
    }
}

} // verus!
