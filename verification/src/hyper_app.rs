//! HTTP/1.1 and HTTP/2 over a transport stream: choosing the protocol.

use vstd::prelude::*;

use crate::text::same_bytes;
use crate::transport::TransportIo;

verus! {

/// Supported HTTP protocol versions.
#[derive(Clone, Copy, Debug, PartialEq, Eq, Structural)]
pub enum Protocol {
    /// Select the protocol automatically: HTTP/2 where ALPN negotiated it, else HTTP/1.1.
    Auto,
    /// Force HTTP/1.1.
    Http1,
    /// Force HTTP/2.
    Http2,
}

impl Default for Protocol {
    fn default() -> (r: Self)
        ensures
            r == Protocol::Auto,
    {
        Protocol::Auto
    }
}

/// The ALPN identifier of HTTP/2.
pub open spec fn alpn_h2() -> Seq<u8> {
    seq![0x68u8, 0x32u8]
}

/// Whether HTTP/2 is spoken, given the configured protocol and what ALPN negotiated.
pub open spec fn speaks_http2(protocol: Protocol, alpn: Option<Seq<u8>>) -> bool {
    match protocol {
        Protocol::Http2 => true,
        Protocol::Http1 => false,
        Protocol::Auto => alpn == Some(alpn_h2()),
    }
}

/// The Hyper-based application plugin.
#[derive(Clone, Copy)]
pub struct HyperApp {
    protocol: Protocol,
}

impl Default for HyperApp {
    fn default() -> (r: Self)
        ensures
            r.protocol() == Protocol::Auto,
    {
        HyperApp { protocol: Protocol::Auto }
    }
}

impl HyperApp {
    /// The configured protocol.
    pub closed spec fn protocol(&self) -> Protocol {
        self.protocol
    }

    /// Creates a plugin that selects the protocol automatically.
    pub fn new() -> (r: Self)
        ensures
            r.protocol() == Protocol::Auto,
    {
        HyperApp { protocol: Protocol::Auto }
    }

    /// Configures the HTTP protocol version to use.
    pub fn with_protocol(self, protocol: Protocol) -> (r: Self)
        ensures
            r.protocol() == protocol,
    {
        HyperApp { protocol }
    }

    /// Decides whether to speak HTTP/2, given what ALPN negotiated.
    pub fn use_http2(&self, alpn: Option<&[u8]>) -> (r: bool)
        ensures
            r == speaks_http2(
                self.protocol(),
                match alpn {
                    Some(name) => Some(name@),
                    None => None,
                },
            ),
    {
        match self.protocol {
            Protocol::Http2 => true,
            Protocol::Http1 => false,
            Protocol::Auto => match alpn {
                Some(name) => {
                    let expected: [u8; 2] = [0x68, 0x32];
                    assert(expected@ =~= alpn_h2());
                    same_bytes(name, &expected)
                },
                None => false,
            },
        }
    }

    /// Decides whether to speak HTTP/2 over a stream.
    pub fn use_http2_over<I: TransportIo>(&self, io: &I) -> (r: bool)
        ensures
            self.protocol() == Protocol::Http2 ==> r,
            self.protocol() == Protocol::Http1 ==> !r,
            self.protocol() == Protocol::Auto ==> exists|alpn: Option<&[u8]>|
                {
                    &&& #[trigger] call_ensures(I::alpn_protocol, (io,), alpn)
                    &&& r == speaks_http2(
                        Protocol::Auto,
                        match alpn {
                            Some(name) => Some(name@),
                            None => None,
                        },
                    )
                },
    {
        let alpn = io.alpn_protocol();
        assert(call_ensures(I::alpn_protocol, (io,), alpn));
        self.use_http2(alpn)
    }
}

/// A forced protocol is spoken whatever ALPN negotiated. Selected automatically, HTTP/2 is
/// spoken exactly where ALPN negotiated `h2`, letter for letter.
pub proof fn law_protocol_is_chosen(app: &HyperApp, alpn: Option<&[u8]>, r: bool)
    requires
        call_ensures(HyperApp::use_http2, (app, alpn), r),
    ensures
        app.protocol() == Protocol::Http2 ==> r,
        app.protocol() == Protocol::Http1 ==> !r,
        app.protocol() == Protocol::Auto ==> (r <==> (alpn matches Some(name) && name@.len() == 2
            && name@[0] == 104 && name@[1] == 50)),
{
    if let Some(name) = alpn {
        if name@.len() == 2 && name@[0] == 104 && name@[1] == 50 {
            assert(name@ =~= alpn_h2());
        }
    }
}

/// The protocol over a stream is chosen as [`HyperApp::use_http2`] chooses it, by what ALPN
/// negotiated for the stream.
pub proof fn law_protocol_over_stream<I: TransportIo>(app: &HyperApp, io: &I, r: bool)
    requires
        call_ensures(HyperApp::use_http2_over::<I>, (app, io), r),
    ensures
        app.protocol() == Protocol::Http2 ==> r,
        app.protocol() == Protocol::Http1 ==> !r,
        app.protocol() == Protocol::Auto ==> exists|alpn: Option<&[u8]>|
            {
                &&& #[trigger] call_ensures(I::alpn_protocol, (io,), alpn)
                &&& r <==> (alpn matches Some(name) && name@.len() == 2 && name@[0] == 104
                    && name@[1] == 50)
            },
{
    if app.protocol() == Protocol::Auto {
        let alpn = choose|alpn: Option<&[u8]>|
            {
                &&& #[trigger] call_ensures(I::alpn_protocol, (io,), alpn)
                &&& r == speaks_http2(
                    Protocol::Auto,
                    match alpn {
                        Some(name) => Some(name@),
                        None => None,
                    },
                )
            };
        if let Some(name) = alpn {
            if name@.len() == 2 && name@[0] == 104 && name@[1] == 50 {
                assert(name@ =~= alpn_h2());
            }
        }
    }
}

} // verus!
