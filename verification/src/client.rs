//! The HTTP client.

use std::sync::Arc;

use vstd::prelude::*;

use crate::bound_request::{initial_head, start_refusal, started, BoundRequestBuilder};
use crate::request_head::{is_token, type_count};

verus! {

/// What the clones of a client share.
struct ClientInner<T, A, R> {
    transport: T,
    app: A,
    runtime: R,
}

/// The primary HTTP client.
///
/// `Client` is a light handle: its clones share one transport, one application plugin and
/// one runtime.
pub struct Client<T, A, R> {
    inner: Arc<ClientInner<T, A, R>>,
}

impl<T, A, R> Clone for Client<T, A, R> {
    fn clone(&self) -> (r: Self)
        ensures
            r == *self,
    {
        Client { inner: self.inner.clone() }
    }
}

impl<T, A, R> Client<T, A, R> {
    /// The transport that all clones share.
    pub closed spec fn transport(&self) -> T {
        self.inner.transport
    }

    /// The application plugin that all clones share.
    pub closed spec fn app(&self) -> A {
        self.inner.app
    }

    /// The runtime that all clones share.
    pub closed spec fn runtime(&self) -> R {
        self.inner.runtime
    }

    /// Creates a client.
    pub fn new(transport: T, app: A, runtime: R) -> (r: Self)
        ensures
            r.transport() == transport,
            r.app() == app,
            r.runtime() == runtime,
    {
        Client { inner: Arc::new(ClientInner { transport, app, runtime }) }
    }

    /// The plugins of the client: its transport, its application and its runtime.
    pub fn plugins(&self) -> (r: (&T, &A, &R))
        ensures
            *r.0 == self.transport(),
            *r.1 == self.app(),
            *r.2 == self.runtime(),
    {
        (&self.inner.transport, &self.inner.app, &self.inner.runtime)
    }

    /// Starts a request with a method and a target.
    pub fn request(&self, method: &str, uri: &str) -> (r: BoundRequestBuilder<Self>)
        ensures
            r.head() == initial_head(method@, uri@),
            r.head() is None ==> r.refused() == start_refusal(method@, uri@),
            r.head() is Some ==> type_count(r.type_map()) == 0,
            r.bound_client() == *self,
    {
        BoundRequestBuilder::new(self.clone(), method, uri)
    }

    /// Starts a `HEAD` request.
    pub fn head(&self, uri: &str) -> (r: BoundRequestBuilder<Self>)
        ensures
            r.head() == initial_head("HEAD"@, uri@),
            r.head() is None ==> r.refused() == start_refusal("HEAD"@, uri@),
            r.head() is Some ==> type_count(r.type_map()) == 0,
            r.bound_client() == *self,
    {
        self.request("HEAD", uri)
    }

    /// Starts a `GET` request.
    pub fn get(&self, uri: &str) -> (r: BoundRequestBuilder<Self>)
        ensures
            r.head() == initial_head("GET"@, uri@),
            r.head() is None ==> r.refused() == start_refusal("GET"@, uri@),
            r.head() is Some ==> type_count(r.type_map()) == 0,
            r.bound_client() == *self,
    {
        self.request("GET", uri)
    }

    /// Starts a `POST` request.
    pub fn post(&self, uri: &str) -> (r: BoundRequestBuilder<Self>)
        ensures
            r.head() == initial_head("POST"@, uri@),
            r.head() is None ==> r.refused() == start_refusal("POST"@, uri@),
            r.head() is Some ==> type_count(r.type_map()) == 0,
            r.bound_client() == *self,
    {
        self.request("POST", uri)
    }

    /// Starts a `PUT` request.
    pub fn put(&self, uri: &str) -> (r: BoundRequestBuilder<Self>)
        ensures
            r.head() == initial_head("PUT"@, uri@),
            r.head() is None ==> r.refused() == start_refusal("PUT"@, uri@),
            r.head() is Some ==> type_count(r.type_map()) == 0,
            r.bound_client() == *self,
    {
        self.request("PUT", uri)
    }

    /// Starts a `PATCH` request.
    pub fn patch(&self, uri: &str) -> (r: BoundRequestBuilder<Self>)
        ensures
            r.head() == initial_head("PATCH"@, uri@),
            r.head() is None ==> r.refused() == start_refusal("PATCH"@, uri@),
            r.head() is Some ==> type_count(r.type_map()) == 0,
            r.bound_client() == *self,
    {
        self.request("PATCH", uri)
    }

    /// Starts a `DELETE` request.
    pub fn delete(&self, uri: &str) -> (r: BoundRequestBuilder<Self>)
        ensures
            r.head() == initial_head("DELETE"@, uri@),
            r.head() is None ==> r.refused() == start_refusal("DELETE"@, uri@),
            r.head() is Some ==> type_count(r.type_map()) == 0,
            r.bound_client() == *self,
    {
        self.request("DELETE", uri)
    }
}

/// A client starts requests with the method that it is asked for, or that the call is named
/// after, with the target that it is given and with nothing else, and binds them to itself.
pub proof fn law_client_starts_requests<T, A, R>(
    client: &Client<T, A, R>,
    method: &str,
    uri: &str,
    r: BoundRequestBuilder<Client<T, A, R>>,
)
    ensures
        call_ensures(Client::<T, A, R>::request, (client, method, uri), r) ==> started(
            r,
            *client,
            method@,
            uri@,
        ),
        call_ensures(Client::<T, A, R>::head, (client, uri), r) ==> started(
            r,
            *client,
            "HEAD"@,
            uri@,
        ),
        call_ensures(Client::<T, A, R>::get, (client, uri), r) ==> started(
            r,
            *client,
            "GET"@,
            uri@,
        ),
        call_ensures(Client::<T, A, R>::post, (client, uri), r) ==> started(
            r,
            *client,
            "POST"@,
            uri@,
        ),
        call_ensures(Client::<T, A, R>::put, (client, uri), r) ==> started(
            r,
            *client,
            "PUT"@,
            uri@,
        ),
        call_ensures(Client::<T, A, R>::patch, (client, uri), r) ==> started(
            r,
            *client,
            "PATCH"@,
            uri@,
        ),
        call_ensures(Client::<T, A, R>::delete, (client, uri), r) ==> started(
            r,
            *client,
            "DELETE"@,
            uri@,
        ),
{
}

/// The methods that calls are named after are methods, so only a target that is none can be
/// refused.
pub proof fn law_named_methods_are_methods()
    ensures
        is_token("HEAD"@),
        is_token("GET"@),
        is_token("POST"@),
        is_token("PUT"@),
        is_token("PATCH"@),
        is_token("DELETE"@),
{
    reveal_strlit("HEAD");
    reveal_strlit("GET");
    reveal_strlit("POST");
    reveal_strlit("PUT");
    reveal_strlit("PATCH");
    reveal_strlit("DELETE");
}

} // verus!
