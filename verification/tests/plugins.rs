use navar::body::BodyPoll;
use navar::client::Client;
use navar::fetch::{add_headers, parse_header, peer_alpns, select_stack, Stack};
use navar::hyper_app::{HyperApp, Protocol};
use navar::mocks::{
    MockApp, MockConnection, MockRuntime, MockSession, MockStream, MockTransport,
};
use navar::runtime::AsyncRuntime;
use navar::service::Middleware;
use navar::transport::{Polled, TransportIo};
use navar::uri::UriParts;

struct Negotiated(Option<Vec<u8>>);

impl TransportIo for Negotiated {
    fn alpn_protocol(&self) -> Option<&[u8]> {
        self.0.as_deref()
    }
}

struct Layer(&'static str);

impl Middleware<String> for Layer {
    type Wrapped = String;

    fn wrap(self, next: String) -> String {
        format!("{}({next})", self.0)
    }
}

fn uri(source: &str) -> UriParts {
    UriParts::parse(source).unwrap()
}

#[test]
fn protocol_is_automatic_by_default() {
    assert_eq!(Protocol::default(), Protocol::Auto);
    for app in [HyperApp::new(), HyperApp::default()] {
        assert!(app.use_http2(Some(b"h2")));
        assert!(!app.use_http2(Some(b"http/1.1")));
        assert!(!app.use_http2(Some(b"h2c")));
        assert!(!app.use_http2(Some(b"")));
        assert!(!app.use_http2(None));
    }
}

#[test]
fn protocol_can_be_forced() {
    let http1 = HyperApp::new().with_protocol(Protocol::Http1);
    let http2 = HyperApp::new().with_protocol(Protocol::Http2);
    for alpn in [None, Some(b"h2".as_slice()), Some(b"http/1.1".as_slice())] {
        assert!(!http1.use_http2(alpn));
        assert!(http2.use_http2(alpn));
    }
    assert!(http1.with_protocol(Protocol::Auto).use_http2(Some(b"h2")));
}

#[test]
fn protocol_over_a_stream() {
    let auto = HyperApp::new();
    assert!(auto.use_http2_over(&Negotiated(Some(b"h2".to_vec()))));
    assert!(!auto.use_http2_over(&Negotiated(Some(b"http/1.1".to_vec()))));
    assert!(!auto.use_http2_over(&Negotiated(None)));
    assert!(!auto.use_http2_over(&MockStream));
    assert!(auto.with_protocol(Protocol::Http2).use_http2_over(&MockStream));
    assert!(!auto
        .with_protocol(Protocol::Http1)
        .use_http2_over(&Negotiated(Some(b"h2".to_vec()))));
}

#[test]
fn layers_keep_their_order() {
    let service = "service".to_owned();
    assert_eq!((Layer("a"), Layer("b")).wrap(service.clone()), "a(b(service))");
    let left = ((Layer("a"), Layer("b")), Layer("c")).wrap(service.clone());
    let right = (Layer("a"), (Layer("b"), Layer("c"))).wrap(service);
    assert_eq!(left, "a(b(c(service)))");
    assert_eq!(right, left);
}

#[test]
fn stacks_are_selected_by_scheme() {
    assert_eq!(select_stack(&uri("http://example.com")), Ok(Stack::Tcp));
    assert_eq!(select_stack(&uri("https://example.com")), Ok(Stack::Tcp));
    assert_eq!(select_stack(&uri("example.com")), Ok(Stack::Tcp));
    assert_eq!(select_stack(&uri("iroh+http://example.com")), Ok(Stack::PeerHttp));
    assert_eq!(select_stack(&uri("iroh+h3://example.com")), Ok(Stack::PeerH3));
    assert_eq!(select_stack(&uri("ftp://example.com")), Err("ftp".to_owned()));
}

#[test]
fn peer_stacks_ask_for_their_scheme() {
    assert_eq!(peer_alpns(Stack::Tcp), Vec::<Vec<u8>>::new());
    assert_eq!(peer_alpns(Stack::PeerHttp), vec![b"iroh+http".to_vec()]);
    assert_eq!(peer_alpns(Stack::PeerH3), vec![b"iroh+h3".to_vec()]);
}

#[test]
fn headers_are_read_as_written() {
    assert_eq!(parse_header("Accept: text/html"), Some(("Accept", "text/html")));
    assert_eq!(parse_header("  a :\tb:c\u{a0}"), Some(("a", "b:c")));
    assert_eq!(parse_header(":"), Some(("", "")));
    assert_eq!(parse_header("no colon"), None);
}

#[test]
fn written_headers_are_added_in_order() {
    let client = Client::new(MockTransport, MockApp, MockRuntime);
    let texts: Vec<String> = ["A: 1", "ignored", "b:2", "a: 3"].map(str::to_owned).to_vec();
    let request = add_headers(client.get("http://example.com"), &texts).build().unwrap();
    let values: Vec<&http::HeaderValue> = request.headers().get_all("a").iter().collect();
    assert_eq!(values, vec!["1", "3"]);
    assert_eq!(request.headers().get("b").unwrap(), "2");
    assert_eq!(request.headers().len(), 3);
    let texts = vec!["bad name: x".to_owned()];
    assert!(add_headers(client.get("http://example.com"), &texts).build().is_err());
    let texts: Vec<String> = ["A: 1", "b: \u{1}", "bad name: x"].map(str::to_owned).to_vec();
    match add_headers(client.get("http://example.com"), &texts).build() {
        Err(navar::bound_request::RequestError::Http(error)) => {
            assert!(error.is::<http::header::InvalidHeaderValue>())
        }
        _ => panic!("no refusal"),
    }
}

#[test]
fn mock_stream_is_at_its_end_and_takes_everything() {
    let stream = MockStream;
    assert_eq!(stream.stream_id(), 0);
    let mut buffer = [7u8; 4];
    assert!(matches!(stream.poll_read::<()>(&mut buffer), Polled::Ready(0)));
    assert_eq!(buffer, [7u8; 4]);
    assert!(matches!(stream.poll_write::<()>(b"abc"), Polled::Ready(3)));
    assert!(matches!(stream.poll_flush::<()>(), Polled::Ready(())));
    assert!(matches!(stream.poll_close::<()>(), Polled::Ready(())));
    assert_eq!(stream.split(), (MockStream, MockStream));
    assert_eq!(stream.alpn_protocol(), None);
}

#[test]
fn mock_stack_answers_with_nothing() {
    let connection = MockTransport.connect::<()>(&uri("http://example.com")).unwrap();
    assert_eq!(connection, MockConnection);
    assert!(matches!(connection.open_bidirectional::<()>(), Polled::Ready(MockStream)));
    assert!(matches!(connection.open_unidirectional::<()>(), Polled::Ready(MockStream)));
    assert!(matches!(connection.accept_bidirectional::<()>(), Polled::Pending));
    assert!(matches!(connection.accept_unidirectional::<()>(), Polled::Pending));
    let session = MockApp.handshake::<()>(connection).unwrap();
    assert_eq!(session, MockSession);
    assert!(matches!(session.poll_frame::<()>(), BodyPoll::End));
    MockRuntime.spawn(async { panic!("never run") });
}
