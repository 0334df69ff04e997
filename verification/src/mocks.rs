//! Stand-ins for a transport, an application protocol and a runtime, for tests.

use std::future::Future;

use vstd::prelude::*;

use crate::body::BodyPoll;
use crate::runtime::AsyncRuntime;
use crate::transport::{Polled, TransportIo};
use crate::uri::UriParts;

verus! {

/// A stream that is at its end and takes whatever is written.
#[derive(Clone, Copy, Debug, PartialEq, Eq, Structural)]
pub struct MockStream;

impl TransportIo for MockStream {

}

impl MockStream {
    /// The id of the stream: always 0.
    pub fn stream_id(&self) -> (r: u64)
        ensures
            r == 0,
    {
        0
    }

    /// Reads nothing.
    pub fn poll_read<E>(&self, buffer: &mut [u8]) -> (r: Polled<usize, E>)
        ensures
            r == Polled::<usize, E>::Ready(0),
            final(buffer)@ == old(buffer)@,
    {
        Polled::Ready(0)
    }

    /// Takes all that is written.
    pub fn poll_write<E>(&self, data: &[u8]) -> (r: Polled<usize, E>)
        ensures
            r == Polled::<usize, E>::Ready(data@.len() as usize),
    {
        Polled::Ready(data.len())
    }

    /// Has nothing to flush.
    pub fn poll_flush<E>(&self) -> (r: Polled<(), E>)
        ensures
            r == Polled::<(), E>::Ready(()),
    {
        Polled::Ready(())
    }

    /// Closes at once.
    pub fn poll_close<E>(&self) -> (r: Polled<(), E>)
        ensures
            r == Polled::<(), E>::Ready(()),
    {
        Polled::Ready(())
    }

    /// Parts the stream into two of its kind.
    pub fn split(self) -> (r: (MockStream, MockStream))
        ensures
            r == (self, self),
    {
        (self, self)
    }
}

/// A connection that opens streams at once and never accepts one.
#[derive(Clone, Copy, Debug, PartialEq, Eq, Structural)]
pub struct MockConnection;

impl MockConnection {
    /// Opens a stream with both halves.
    pub fn open_bidirectional<E>(&self) -> (r: Polled<MockStream, E>)
        ensures
            r == Polled::<MockStream, E>::Ready(MockStream),
    {
        Polled::Ready(MockStream)
    }

    /// Opens a stream with a sending half.
    pub fn open_unidirectional<E>(&self) -> (r: Polled<MockStream, E>)
        ensures
            r == Polled::<MockStream, E>::Ready(MockStream),
    {
        Polled::Ready(MockStream)
    }

    /// Waits for a stream with both halves, forever.
    pub fn accept_bidirectional<E>(&self) -> (r: Polled<MockStream, E>)
        ensures
            r == Polled::<MockStream, E>::Pending,
    {
        Polled::Pending
    }

    /// Waits for a stream with a receiving half, forever.
    pub fn accept_unidirectional<E>(&self) -> (r: Polled<MockStream, E>)
        ensures
            r == Polled::<MockStream, E>::Pending,
    {
        Polled::Pending
    }
}

/// A transport that connects to anything.
#[derive(Clone, Copy, Debug, PartialEq, Eq, Structural)]
pub struct MockTransport;

impl MockTransport {
    /// Connects, wherever the URI points.
    pub fn connect<E>(&self, uri: &UriParts) -> (r: Result<MockConnection, E>)
        ensures
            r == Ok::<MockConnection, E>(MockConnection),
    {
        Ok(MockConnection)
    }
}

/// A session that answers every request with an empty body.
#[derive(Clone, Copy, Debug, PartialEq, Eq, Structural)]
pub struct MockSession;

impl MockSession {
    /// What polling the body of a response gives: its end.
    pub fn poll_frame<E>(&self) -> (r: BodyPoll<E>)
        ensures
            r == BodyPoll::<E>::End,
    {
        BodyPoll::End
    }
}

/// An application protocol without a handshake.
#[derive(Clone, Copy, Debug, PartialEq, Eq, Structural)]
pub struct MockApp;

impl MockApp {
    /// Makes a session of a connection.
    pub fn handshake<E>(&self, connection: MockConnection) -> (r: Result<MockSession, E>)
        ensures
            r == Ok::<MockSession, E>(MockSession),
    {
        Ok(MockSession)
    }
}

/// A runtime that drops what it is to run.
#[derive(Clone, Copy, Debug, PartialEq, Eq, Structural)]
pub struct MockRuntime;

impl AsyncRuntime for MockRuntime {
    fn spawn<F>(&self, future: F) where F: Future<Output = ()> + Send + 'static {
    }
}

} // verus!
