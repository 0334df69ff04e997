# navar

A transport-agnostic HTTP client core, verified with Verus. It separates the HTTP interface
from the network transport and the runtime, so that requests run over TCP, TLS or
peer-to-peer streams without a change in the application.

- `src/` is the library: building requests, the order of work in sending them, session
  pooling, reading Server-Sent Events and NDJSON, and what the HTTP/1.1, HTTP/2, HTTP/3, TCP
  and iroh plugins decide. Its functions carry contracts; only the methods
  that a user of the library implements (`AsyncRuntime::spawn`, which the mock runtime
  implements too, and `Middleware::wrap`) have none of their own. The proof functions named
  `law_..` state what holds across functions: that frame boundaries do not matter to a
  parser, that data reaches the transport in order, that a pooled session is reused.
- `app/` is the async code around it: the plugin traits, the I/O and the loops that perform
  what the library asks for.
- `tests/` run the library.

Values of other crates (`bytes::Bytes`, `http::request::Builder`, `dashmap::DashMap`,
`serde_json::Value` and others) are opaque to the verifier. Functions marked
`external_body` make the calls on them; their doc comments say what is claimed of each call.
