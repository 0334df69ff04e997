use navar::iroh_transport::{IrohTransport, PeerError};
use navar::tokio_transport::{ConnectError, TokioConnection, TokioTransport, Unsupported};
use navar::uri::UriParts;
use rustls::pki_types::pem::PemObject;
use rustls::pki_types::{CertificateDer, ServerName};

const CERTIFICATE: &[u8] = b"-----BEGIN CERTIFICATE-----
MIIBtjCCAVugAwIBAgITBmyf1XSXNmY/Owua2eiedgPySjAKBggqhkjOPQQDAjA5
MQswCQYDVQQGEwJVUzEPMA0GA1UEChMGQW1hem9uMRkwFwYDVQQDExBBbWF6b24g
Um9vdCBDQSAzMB4XDTE1MDUyNjAwMDAwMFoXDTQwMDUyNjAwMDAwMFowOTELMAkG
A1UEBhMCVVMxDzANBgNVBAoTBkFtYXpvbjEZMBcGA1UEAxMQQW1hem9uIFJvb3Qg
Q0EgMzBZMBMGByqGSM49AgEGCCqGSM49AwEHA0IABCmXp8ZBf8ANm+gBG1bG8lKl
ui2yEujSLtf6ycXYqm0fc4E7O5hrOXwzpcVOho6AF2hiRVd9RFgdszflZwjrZt6j
QjBAMA8GA1UdEwEB/wQFMAMBAf8wDgYDVR0PAQH/BAQDAgGGMB0GA1UdDgQWBBSr
ttvXBp43rDCGB5Fwx5zEGbF4wDAKBggqhkjOPQQDAgNJADBGAiEA4IWSoxe3jfkr
BqWTrBqYaGFy+uGh0PsceGCmQ5nFuMQCIQCcAu/xlJyzlvnrxir4tiz+OpAUFteM
YyRIHN8wfdVoOw==
-----END CERTIFICATE-----
";

const PEER: &str = "ae58ff8833241ac82d6ff7611046ed67b5072d142c588d0063e942d9a75502b6";

fn uri(source: &str) -> UriParts {
    UriParts::parse(source).unwrap()
}

#[test]
fn uri_parts_of_a_whole_uri() {
    let parts = uri("https://user@example.com:8443/path?query");
    assert_eq!(parts.scheme.as_deref(), Some("https"));
    assert_eq!(parts.authority.as_deref(), Some("user@example.com:8443"));
    assert_eq!(parts.host.as_deref(), Some("example.com"));
    assert_eq!(parts.port, Some(8443));
    assert_eq!(parts.target, "https://user@example.com:8443/path?query");
}

#[test]
fn uri_parts_of_a_path_and_of_an_authority() {
    let parts = uri("/path");
    assert_eq!(parts.scheme, None);
    assert_eq!(parts.authority, None);
    assert_eq!(parts.host, None);
    assert_eq!(parts.port, None);
    let parts = uri("example.com:80");
    assert_eq!(parts.scheme, None);
    assert_eq!(parts.authority.as_deref(), Some("example.com:80"));
    assert_eq!(parts.host.as_deref(), Some("example.com"));
    assert_eq!(parts.port, Some(80));
}

#[test]
fn uri_refuses_other_text() {
    assert!(UriParts::parse("").is_err());
    assert!(UriParts::parse("http://exa mple.com").is_err());
}

#[test]
fn tcp_target_takes_the_written_port() {
    let target = TokioTransport::target(&uri("http://example.com:8080/")).unwrap();
    assert_eq!(target.host, "example.com");
    assert_eq!(target.port, 8080);
    assert_eq!(target.address, "example.com:8080");
    assert!(!target.tls);
}

#[test]
fn tcp_target_takes_the_port_of_the_scheme() {
    let target = TokioTransport::target(&uri("https://example.com")).unwrap();
    assert_eq!((target.port, target.tls), (443, true));
    assert_eq!(target.address, "example.com:443");
    let target = TokioTransport::target(&uri("http://example.com")).unwrap();
    assert_eq!((target.port, target.tls), (80, false));
    assert_eq!(target.address, "example.com:80");
    let target = TokioTransport::target(&uri("ftp://example.com")).unwrap();
    assert_eq!((target.port, target.tls), (80, false));
    let target = TokioTransport::target(&uri("https://example.com:80")).unwrap();
    assert_eq!((target.port, target.tls), (80, true));
}

#[test]
fn tcp_target_addresses_are_decimal() {
    for (port, text) in [(0u16, "0"), (9, "9"), (10, "10"), (65535, "65535")] {
        let target = TokioTransport::target(&uri(&format!("http://h:{port}"))).unwrap();
        assert_eq!(target.address, format!("h:{text}"));
    }
    let target = TokioTransport::target(&uri("http://[::1]:1")).unwrap();
    assert_eq!(target.host, "[::1]");
    assert_eq!(target.address, "[::1]:1");
}

#[test]
fn tcp_target_needs_a_host() {
    let error = TokioTransport::target(&uri("/path")).unwrap_err();
    assert_eq!(error, ConnectError::MissingHost);
    assert_eq!(error.message(), "URI missing host");
}

#[test]
fn tcp_connection_needs_an_address() {
    let target = TokioTransport::target(&uri("http://example.com")).unwrap();
    let error = TokioTransport::connection::<u8>(target, None).unwrap_err();
    assert_eq!(error, ConnectError::NoAddress);
    assert_eq!(error.message(), "DNS resolution failed");
}

#[test]
fn tcp_connection_names_the_server_for_tls_only() {
    let target = TokioTransport::target(&uri("http://example.com")).unwrap();
    let connection = TokioTransport::connection(target, Some(7)).unwrap();
    assert_eq!(connection.addr, 7);
    assert!(connection.tls.is_none());
    let target = TokioTransport::target(&uri("https://example.com")).unwrap();
    let connection = TokioTransport::connection(target, Some(7)).unwrap();
    assert_eq!(connection.addr, 7);
    assert_eq!(connection.tls, Some(ServerName::try_from("example.com").unwrap()));
}

#[test]
fn tcp_connection_refuses_other_server_names() {
    let target = TokioTransport::target(&uri("https://a..b")).unwrap();
    let error = TokioTransport::connection(target, Some(7)).unwrap_err();
    assert_eq!(error, ConnectError::InvalidServerName);
    assert_eq!(error.message(), "invalid DNS name");
    let target = TokioTransport::target(&uri("http://a..b")).unwrap();
    assert!(TokioTransport::connection(target, Some(7)).is_ok());
}

#[test]
fn tcp_connection_has_no_other_streams() {
    let connection = TokioConnection { addr: 0, tls: None };
    let error = connection.open_unidirectional::<()>().unwrap_err();
    assert_eq!(error, Unsupported::Unidirectional);
    assert_eq!(error.message(), "TokioTransport: unidirectional streams are not supported");
    let error = connection.accept_bidirectional::<()>().unwrap_err();
    assert_eq!(error, Unsupported::Inbound);
    assert_eq!(error.message(), "TokioTransport: accepting inbound streams is not supported");
    assert_eq!(connection.accept_unidirectional::<()>(), Err(Unsupported::Inbound));
}

#[test]
fn tcp_transport_trusts_the_web() {
    let (roots, alpns) = TokioTransport::default().into_parts();
    assert_eq!(roots.roots, webpki_roots::TLS_SERVER_ROOTS);
    assert_eq!(alpns, vec![b"h2".to_vec(), b"http/1.1".to_vec()]);
}

#[test]
fn tcp_transport_trusts_one_certificate_more() {
    let der = CertificateDer::from_pem_slice(CERTIFICATE).unwrap();
    let transport = TokioTransport::new(vec![b"h2".to_vec()], Some(der.to_vec()));
    let (roots, alpns) = transport.into_parts();
    let web = webpki_roots::TLS_SERVER_ROOTS;
    assert_eq!(roots.roots.len(), web.len() + 1);
    assert_eq!(&roots.roots[..web.len()], web);
    assert!(web.contains(roots.roots.last().unwrap()));
    assert_eq!(alpns, vec![b"h2".to_vec()]);
}

#[test]
fn tcp_transport_ignores_what_is_no_certificate() {
    let (roots, _) = TokioTransport::new(Vec::new(), Some(b"garbage".to_vec())).into_parts();
    assert_eq!(roots.roots.len(), webpki_roots::TLS_SERVER_ROOTS.len());
}

#[test]
fn peer_is_named_by_the_host() {
    let peer = IrohTransport::<()>::peer(&uri(&format!("iroh+h3://{PEER}/x"))).unwrap();
    assert_eq!(peer.to_string(), PEER);
}

#[test]
fn peer_needs_a_host_that_is_a_key() {
    let error = IrohTransport::<()>::peer(&uri("/x")).unwrap_err();
    assert_eq!(error, PeerError::MissingHost);
    assert_eq!(error.message(), "URI missing host");
    let error = IrohTransport::<()>::peer(&uri("iroh+h3://example.com/")).unwrap_err();
    assert_eq!(error, PeerError::InvalidKey);
    assert_eq!(error.message(), "Invalid Iroh Public Key");
}

#[test]
fn peer_alpn_is_the_first_or_the_default() {
    let transport = IrohTransport::new("endpoint", vec![b"a".to_vec(), b"b".to_vec()]);
    assert_eq!(transport.alpn(), b"a");
    assert_eq!(*transport.endpoint(), "endpoint");
    assert_eq!(IrohTransport::new((), Vec::new()).alpn(), b"n0/navar");
    assert_eq!(IrohTransport::new((), vec![Vec::new()]).alpn(), b"");
}
