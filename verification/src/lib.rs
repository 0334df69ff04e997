//! A transport-agnostic HTTP client core.
//!
//! The library separates the HTTP interface from the network transport and the runtime. It
//! holds what the client decides and computes:
//!
//! - [`client`], [`bound_request`], [`request_head`]: building requests;
//! - [`dispatch`], [`base_service`], [`service`]: the order of work in sending one, session
//!   pooling and middleware;
//! - [`response_helpers`], [`lines`], [`body`]: reading responses, Server-Sent Events and
//!   NDJSON among them;
//! - [`tokio_transport`], [`iroh_transport`], [`hyper_app`], [`h3_adapter`],
//!   [`h3_connection`], [`h3_session`]: what the plugins decide;
//! - [`fetch`], [`mocks`]: a curl-like tool and stand-ins for tests.
//!
//! The I/O itself is left to the code around the library, which hands in the outcome of each
//! piece of it and performs what the library asks for next. Calls into other crates stand
//! behind small functions whose contracts are trusted; each says what it claims.

pub mod base_service;
pub mod body;
pub mod bound_request;
pub mod buf;
pub mod client;
pub mod dispatch;
pub mod fetch;
pub mod h3_adapter;
pub mod h3_connection;
pub mod h3_session;
pub mod hyper_app;
pub mod iroh_transport;
pub mod json;
pub mod lines;
pub mod mocks;
pub mod request_head;
pub mod response_helpers;
pub mod runtime;
pub mod service;
pub mod text;
pub mod tokio_transport;
pub mod transport;
pub mod uri;
