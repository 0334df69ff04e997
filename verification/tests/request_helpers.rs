use bytes::Bytes;
use http::HeaderValue;
use navar::bound_request::json::{ndjson_frame, ndjson_line};
use navar::bound_request::RequestError;
use navar::client::Client;
use navar::mocks::{MockApp, MockRuntime, MockTransport};
use serde_json::Value;

fn client() -> Client<MockTransport, MockApp, MockRuntime> {
    Client::new(MockTransport, MockApp, MockRuntime)
}

fn document(source: &str) -> Value {
    serde_json::from_str(source).unwrap()
}

#[derive(Clone)]
struct MyExt(i32);

#[test]
fn header_and_extension() {
    let req = client()
        .request("GET", "http://example.com")
        .header("X-Test", "Value")
        .extension(MyExt(42))
        .build()
        .unwrap();

    assert_eq!(req.headers().get("X-Test"), Some(&HeaderValue::from_static("Value")));
    assert_eq!(req.extensions().get::<MyExt>().unwrap().0, 42);
}

#[test]
fn extension_is_found_by_its_type() {
    let req = client()
        .post("http://example.com")
        .extension(MyExt(1))
        .extension("label")
        .extension(MyExt(2))
        .header("X-Test", "Value")
        .text("body")
        .unwrap();

    assert_eq!(req.extension::<MyExt>().unwrap().0, 2);
    assert_eq!(req.extension::<&'static str>(), Some(&"label"));
    assert_eq!(req.extension::<u8>(), None);
    assert_eq!(req.extensions().len(), 2);
    assert_eq!(req.into_parts().0.extensions().get::<MyExt>().unwrap().0, 2);
}

#[test]
fn text_body() {
    let req = client().request("POST", "http://example.com").text("hello world").unwrap();

    assert_eq!(
        req.headers().get("content-type"),
        Some(&HeaderValue::from_static("text/plain; charset=utf-8"))
    );
    assert_eq!(req.into_body(), Bytes::from("hello world"));
}

#[test]
fn bytes_body() {
    let data = b"\x00\x01\x02";
    let req = client().request("POST", "http://example.com").bytes(data.as_slice()).unwrap();

    assert_eq!(
        req.headers().get("content-type"),
        Some(&HeaderValue::from_static("application/octet-stream"))
    );
    assert_eq!(req.into_body(), Bytes::from_static(data));
}

#[test]
fn json_body() {
    let data = document(r#"{"key": "value"}"#);
    let req = client().request("POST", "http://example.com").json(&data).unwrap();

    assert_eq!(
        req.headers().get("content-type"),
        Some(&HeaderValue::from_static("application/json"))
    );

    let body_bytes = req.into_body();
    assert_eq!(body_bytes, r#"{"key":"value"}"#);
    let body_json: Value = serde_json::from_slice(&body_bytes).unwrap();
    assert_eq!(body_json, data);
}

#[test]
fn ndjson_body() {
    let items = vec![document(r#"{"a": 1}"#), document(r#"{"b": 2}"#)];
    let frames: Vec<Bytes> = items.iter().map(|item| ndjson_frame(item).unwrap()).collect();

    let req = client().request("POST", "http://example.com").ndjson(frames).unwrap();

    assert_eq!(
        req.headers().get("content-type"),
        Some(&HeaderValue::from_static("application/x-ndjson"))
    );

    let body_bytes = req.into_body().concat();
    let body_str = std::str::from_utf8(&body_bytes).unwrap();

    let lines: Vec<&str> = body_str.lines().collect();
    assert_eq!(lines.len(), 2);
    assert_eq!(serde_json::from_str::<Value>(lines[0]).unwrap(), items[0]);
    assert_eq!(serde_json::from_str::<Value>(lines[1]).unwrap(), items[1]);
}

#[test]
fn ndjson_line_ends_with_newline() {
    assert_eq!(ndjson_line(b"{}".to_vec()), "{}\n");
    assert_eq!(ndjson_line(Vec::new()), "\n");
    assert_eq!(ndjson_frame(&document("\"a\\nb\"")).unwrap(), "\"a\\nb\"\n");
}

#[test]
fn content_type_of_the_caller_is_kept() {
    let req = client()
        .post("http://example.com")
        .header("Content-Type", "application/vnd.api+json")
        .json(&document("[]"))
        .unwrap();
    let values: Vec<&HeaderValue> = req.headers().get_all("content-type").iter().collect();
    assert_eq!(values, vec![&HeaderValue::from_static("application/vnd.api+json")]);
    assert_eq!(req.into_body(), "[]");
}

#[test]
fn content_type_is_ensured_once() {
    let req = client()
        .post("http://example.com")
        .ensure_content_type("text/csv")
        .ensure_content_type("text/html")
        .build()
        .unwrap();
    assert_eq!(req.headers().get_all("content-type").iter().count(), 1);
    assert_eq!(req.headers().get("content-type").unwrap(), "text/csv");
}

#[test]
fn headers_of_one_name_are_appended_in_order() {
    let req = client()
        .get("http://example.com")
        .header("Accept", "text/html")
        .header("ACCEPT", "text/plain")
        .header("x-other", "")
        .build()
        .unwrap();
    let values: Vec<&HeaderValue> = req.headers().get_all("accept").iter().collect();
    assert_eq!(values, vec!["text/html", "text/plain"]);
    assert_eq!(req.headers().get("X-Other").unwrap(), "");
    assert_eq!(req.headers().len(), 3);
}

#[test]
fn methods_are_those_of_their_names() {
    let client = client();
    let uri = "http://example.com/a?b";
    let built = vec![
        ("HEAD", client.head(uri)),
        ("GET", client.get(uri)),
        ("POST", client.post(uri)),
        ("PUT", client.put(uri)),
        ("PATCH", client.patch(uri)),
        ("DELETE", client.delete(uri)),
        ("PURGE", client.request("PURGE", uri)),
    ];
    for (method, builder) in built {
        let (request, _, _) = builder.build().unwrap().into_parts();
        assert_eq!(request.method().as_str(), method);
        assert_eq!(request.uri().to_string(), uri);
        assert!(request.headers().is_empty());
    }
}

#[test]
fn refused_method_target_or_header_fails_at_build() {
    let client = client();
    let refused = vec![
        client.request("", "http://example.com"),
        client.request("GE T", "http://example.com"),
        client.request("GET", "http://exa mple.com"),
        client.get(""),
        client.get("http://example.com").header("", "x"),
        client.get("http://example.com").header("na me", "x"),
        client.get("http://example.com").header("n\u{e4}me", "x"),
        client.get("http://example.com").header("name", "a\nb"),
        client.get("http://example.com").header("name", "a\u{7f}b"),
    ];
    for builder in refused {
        assert!(matches!(builder.build(), Err(RequestError::Http(_))));
    }
}

#[test]
fn refusal_is_not_mended_by_what_follows() {
    let builder = client().get("http://example.com").header("na me", "x").header("name", "x");
    assert!(matches!(builder.text("body"), Err(RequestError::Http(_))));
    let builder = client().get("http://example.com").header("name", "\r").extension(MyExt(1));
    assert!(builder.build().is_err());
}

fn refusal<B>(r: Result<B, RequestError>) -> http::Error {
    match r {
        Err(RequestError::Http(error)) => error,
        _ => panic!("no refusal"),
    }
}

#[test]
fn first_refusal_is_reported() {
    let builder = client().request("GE T", "http://exa mple").header("na me", "x");
    assert!(refusal(builder.build()).is::<http::method::InvalidMethod>());
    let builder = client().get("http://exa mple").header("na me", "x");
    assert!(refusal(builder.text("x")).is::<http::uri::InvalidUri>());
    let builder = client().get("/").header("na me", "\n").header("a", "\n");
    assert!(refusal(builder.build()).is::<http::header::InvalidHeaderName>());
    let builder = client().get("/").header("a", "\n").extension(MyExt(1)).header("na me", "x");
    assert!(refusal(builder.build()).is::<http::header::InvalidHeaderValue>());
    let builder = client().get("/").ensure_content_type("\n");
    assert!(refusal(builder.ndjson(())).is::<http::header::InvalidHeaderValue>());
}

#[test]
fn header_characters_are_those_that_are_allowed() {
    for code in 0u32..0x180 {
        let c = char::from_u32(code).unwrap();
        let in_name = c.is_ascii_alphanumeric() || "!#$%&'*+-.^_`|~".contains(c);
        let in_value = c == '\t' || (c >= ' ' && c != '\u{7f}');
        let word = c.to_string();
        assert_eq!(client().get("/").header(&word, "v").build().is_ok(), in_name, "{code:x}");
        assert_eq!(client().get("/").header("n", &word).build().is_ok(), in_value, "{code:x}");
        assert_eq!(client().request(&word, "/").build().is_ok(), in_name, "{code:x}");
    }
}

#[test]
fn header_values_may_be_opaque_bytes() {
    let req = client().get("/").header_bytes("X-Raw", b"a\xff\x80").build().unwrap();
    assert_eq!(req.headers().get("x-raw").unwrap().as_bytes(), b"a\xff\x80");
    for byte in 0u8..=255 {
        let allowed = byte == b'\t' || (byte >= 32 && byte != 127);
        assert_eq!(client().get("/").header_bytes("n", &[byte]).build().is_ok(), allowed);
    }
}

#[test]
fn fresh_request_carries_nothing() {
    let req = client().get("/").header("a", "b").build().unwrap();
    assert!(req.extensions().is_empty());
    assert!(req.extension::<MyExt>().is_none());
}

#[test]
fn longest_header_name() {
    let longest = "a".repeat(65535);
    assert!(client().get("/").header(&longest, "v").build().is_ok());
    let longer = "a".repeat(65536);
    assert!(client().get("/").header(&longer, "v").build().is_err());
}

#[test]
fn many_header_names_find_room() {
    let mut builder = client().get("/");
    for number in 0..6554 {
        builder = builder.header(&format!("x-{number}"), "v");
    }
    assert_eq!(builder.build().unwrap().headers().len(), 6554);
}

#[test]
fn text_is_sent_as_utf8() {
    let req = client().put("http://example.com").text("gr\u{fc}n").unwrap();
    assert_eq!(req.into_body(), Bytes::from_static(b"gr\xc3\xbcn"));
}

#[test]
fn body_and_client_come_back_out() {
    let client = Client::new(1u8, 2u16, 3u32);
    assert_eq!(client.plugins(), (&1, &2, &3));
    let clone = client.clone();
    assert_eq!(clone.plugins(), (&1, &2, &3));
    assert!(std::ptr::eq(client.plugins().0, clone.plugins().0));
    let (request, body, sender) = client.post("/x").body("payload").unwrap().into_parts();
    assert_eq!(request.uri().path(), "/x");
    assert_eq!(body, "payload");
    assert!(std::ptr::eq(sender.plugins().1, client.plugins().1));
}
