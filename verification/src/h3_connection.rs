//! The operations on a connection that HTTP/3 polls for.
//!
//! HTTP/3 polls a connection for a stream until it gets one. The transport offers an
//! operation that is started once and then polled itself. [`H3Connection`] keeps the
//! operation that is under way, so that polling again resumes it.

use vstd::prelude::*;

use crate::h3_adapter::{
    closed_connection, closed_stream, conn_closed, stream_error, ConnectionClosed, H3BidiStream,
    H3RecvStream, H3SendStream, StreamClosed,
};
use crate::transport::Polled;

verus! {

/// The outcome of polling an operation of the transport.
#[derive(Debug)]
pub enum Attempt<O, T, E> {
    /// The operation is still under way.
    Pending(O),
    /// The operation is over, with a result.
    Done(T),
    /// The operation is over, with an error.
    Failed(E),
}

/// What is under way after an operation was polled.
pub open spec fn kept<O, T, E>(attempt: Attempt<O, T, E>) -> Option<O> {
    match attempt {
        Attempt::Pending(operation) => Some(operation),
        _ => None,
    }
}

/// The number of operations that are started by polling as often as there are attempts,
/// where `slot` is what is under way before the first.
pub open spec fn starts<O, T, E>(slot: Option<O>, attempts: Seq<Attempt<O, T, E>>) -> nat
    decreases attempts.len(),
{
    if attempts.len() == 0 {
        0
    } else {
        (if slot is None {
            1nat
        } else {
            0nat
        }) + starts(kept(attempts.first()), attempts.drop_first())
    }
}

/// The number of operations that are over after these attempts.
pub open spec fn completions<O, T, E>(attempts: Seq<Attempt<O, T, E>>) -> nat
    decreases attempts.len(),
{
    if attempts.len() == 0 {
        0
    } else {
        (if attempts.first() is Pending {
            0nat
        } else {
            1nat
        }) + completions(attempts.drop_first())
    }
}

/// What is under way after these attempts.
pub open spec fn slot_after<O, T, E>(slot: Option<O>, attempts: Seq<Attempt<O, T, E>>) -> Option<O> {
    if attempts.len() == 0 {
        slot
    } else {
        kept(attempts.last())
    }
}

/// An operation is started once and then resumed until it is over, however often it is
/// polled: the operations that were started, with the one that was under way before, are
/// those that are over and the one that is under way after.
pub proof fn law_operation_is_resumed<O, T, E>(slot: Option<O>, attempts: Seq<Attempt<O, T, E>>)
    ensures
        starts(slot, attempts) + (if slot is Some {
            1nat
        } else {
            0nat
        }) == completions(attempts) + (if slot_after(slot, attempts) is Some {
            1nat
        } else {
            0nat
        }),
    decreases attempts.len(),
{
    if attempts.len() > 0 {
        let rest = attempts.drop_first();
        law_operation_is_resumed(kept(attempts.first()), rest);
        if rest.len() > 0 {
            assert(rest.last() == attempts.last());
        }
    }
}

/// Whether polling `slot` went this way: the operation under way, or else a fresh one that
/// was started on a clone of the connection, was polled, with this attempt.
pub open spec fn went<
    C: Clone,
    O,
    T,
    E,
    B: FnOnce(C) -> O,
    F: FnOnce(O) -> Attempt<O, T, E>,
>(inner: C, slot: Option<O>, begin: B, poll: F, attempt: Attempt<O, T, E>) -> bool {
    match slot {
        Some(operation) => poll.ensures((operation,), attempt),
        None => exists|connection: C, operation: O|
            {
                &&& cloned(inner, connection)
                &&& #[trigger] begin.ensures((connection,), operation)
                &&& #[trigger] poll.ensures((operation,), attempt)
            },
    }
}

/// Polls the operation under way, or else a fresh one, and keeps it if it is not over. None
/// is begun while one is under way.
fn resume<C: Clone, O, T, E, B: FnOnce(C) -> O, F: FnOnce(O) -> Attempt<O, T, E>>(
    inner: &C,
    slot: &mut Option<O>,
    begin: B,
    poll: F,
) -> (r: Polled<T, E>)
    requires
        *old(slot) is None ==> forall|connection: C| #[trigger] begin.requires((connection,)),
        forall|operation: O| #[trigger] poll.requires((operation,)),
    ensures
        exists|attempt: Attempt<O, T, E>|
            {
                &&& #[trigger] went(*inner, *old(slot), begin, poll, attempt)
                &&& *final(slot) == kept(attempt)
                &&& r == match attempt {
                    Attempt::Pending(_) => Polled::<T, E>::Pending,
                    Attempt::Done(value) => Polled::Ready(value),
                    Attempt::Failed(error) => Polled::Failed(error),
                }
            },
{
    let operation = match slot.take() {
        Some(operation) => operation,
        None => {
            let connection = inner.clone();
            begin(connection)
        },
    };
    let attempt = poll(operation);
    let ghost outcome = attempt;
    assert(went(*inner, *old(slot), begin, poll, outcome));
    match attempt {
        Attempt::Pending(operation) => {
            *slot = Some(operation);
            Polled::Pending
        },
        Attempt::Done(value) => Polled::Ready(value),
        Attempt::Failed(error) => Polled::Failed(error),
    }
}

/// A connection of the transport, with the operations on it that are under way: of type `B`
/// for streams with both halves, `W` and `R` for those with a sending or a receiving half.
pub struct H3Connection<C, B, W, R> {
    inner: C,
    accept_bidi: Option<B>,
    accept_uni: Option<R>,
    open_bidi: Option<B>,
    open_uni: Option<W>,
}

/// The operations that are under way.
#[verifier::ext_equal]
pub struct Underway<B, W, R> {
    pub accept_bidi: Option<B>,
    pub accept_uni: Option<R>,
    pub open_bidi: Option<B>,
    pub open_uni: Option<W>,
}

/// No operation is under way.
pub open spec fn idle<B, W, R>() -> Underway<B, W, R> {
    Underway { accept_bidi: None, accept_uni: None, open_bidi: None, open_uni: None }
}

impl<C: Clone, B, W, R> Clone for H3Connection<C, B, W, R> {
    fn clone(&self) -> (r: Self)
        ensures
            cloned(self.connection(), r.connection()),
            r.underway() == idle::<B, W, R>(),
    {
        H3Connection::new(self.inner.clone())
    }
}

impl<C, B, W, R> H3Connection<C, B, W, R> {
    /// The transport's connection.
    pub closed spec fn connection(&self) -> C {
        self.inner
    }

    /// The operations that are under way.
    pub closed spec fn underway(&self) -> Underway<B, W, R> {
        Underway {
            accept_bidi: self.accept_bidi,
            accept_uni: self.accept_uni,
            open_bidi: self.open_bidi,
            open_uni: self.open_uni,
        }
    }

    /// Wraps a connection of the transport, with nothing under way.
    pub fn new(inner: C) -> (r: Self)
        ensures
            r.connection() == inner,
            r.underway() == idle::<B, W, R>(),
    {
        H3Connection { inner, accept_bidi: None, accept_uni: None, open_bidi: None, open_uni: None }
    }
}

impl<C: Clone, B, W, R> H3Connection<C, B, W, R> {
    /// A handle on the same connection, with nothing under way.
    pub fn opener(&self) -> (r: Self)
        ensures
            cloned(self.connection(), r.connection()),
            r.underway() == idle::<B, W, R>(),
    {
        self.clone()
    }

    /// Polls for a stream with both halves to be opened.
    pub fn poll_open_bidi<S, E, G: FnOnce(C) -> B, F: FnOnce(B) -> Attempt<B, S, E>>(
        &mut self,
        begin: G,
        poll: F,
    ) -> (r: Polled<H3BidiStream<S>, StreamClosed>)
        requires
            old(self).underway().open_bidi is None ==> forall|connection: C| #[trigger]
                begin.requires((connection,)),
            forall|operation: B| #[trigger] poll.requires((operation,)),
        ensures
            final(self).connection() == old(self).connection(),
            exists|attempt: Attempt<B, S, E>|
                {
                    &&& #[trigger] went(
                        old(self).connection(),
                        old(self).underway().open_bidi,
                        begin,
                        poll,
                        attempt,
                    )
                    &&& final(self).underway() == (Underway {
                        open_bidi: kept(attempt),
                        ..old(self).underway()
                    })
                    &&& match attempt {
                        Attempt::Pending(_) => r is Pending,
                        Attempt::Done(stream) => r matches Polled::Ready(opened) && opened.inner
                            == stream && opened.send_buf@.len() == 0,
                        Attempt::Failed(_) => r == Polled::<H3BidiStream<S>, StreamClosed>::Failed(
                            closed_stream(),
                        ),
                    }
                },
    {
        match resume(&self.inner, &mut self.open_bidi, begin, poll) {
            Polled::Pending => Polled::Pending,
            Polled::Ready(stream) => Polled::Ready(H3BidiStream::new(stream)),
            Polled::Failed(_) => Polled::Failed(stream_error()),
        }
    }

    /// Polls for a stream with a sending half to be opened.
    pub fn poll_open_send<S, E, G: FnOnce(C) -> W, F: FnOnce(W) -> Attempt<W, S, E>>(
        &mut self,
        begin: G,
        poll: F,
    ) -> (r: Polled<H3SendStream<S>, StreamClosed>)
        requires
            old(self).underway().open_uni is None ==> forall|connection: C| #[trigger]
                begin.requires((connection,)),
            forall|operation: W| #[trigger] poll.requires((operation,)),
        ensures
            final(self).connection() == old(self).connection(),
            exists|attempt: Attempt<W, S, E>|
                {
                    &&& #[trigger] went(
                        old(self).connection(),
                        old(self).underway().open_uni,
                        begin,
                        poll,
                        attempt,
                    )
                    &&& final(self).underway() == (Underway {
                        open_uni: kept(attempt),
                        ..old(self).underway()
                    })
                    &&& match attempt {
                        Attempt::Pending(_) => r is Pending,
                        Attempt::Done(stream) => r matches Polled::Ready(opened) && opened.inner
                            == stream && opened.buf@.len() == 0,
                        Attempt::Failed(_) => r == Polled::<H3SendStream<S>, StreamClosed>::Failed(
                            closed_stream(),
                        ),
                    }
                },
    {
        match resume(&self.inner, &mut self.open_uni, begin, poll) {
            Polled::Pending => Polled::Pending,
            Polled::Ready(stream) => Polled::Ready(H3SendStream::new(stream)),
            Polled::Failed(_) => Polled::Failed(stream_error()),
        }
    }

    /// Polls for a stream with both halves to be accepted.
    pub fn poll_accept_bidi<S, E, G: FnOnce(C) -> B, F: FnOnce(B) -> Attempt<B, S, E>>(
        &mut self,
        begin: G,
        poll: F,
    ) -> (r: Polled<H3BidiStream<S>, ConnectionClosed>)
        requires
            old(self).underway().accept_bidi is None ==> forall|connection: C| #[trigger]
                begin.requires((connection,)),
            forall|operation: B| #[trigger] poll.requires((operation,)),
        ensures
            final(self).connection() == old(self).connection(),
            exists|attempt: Attempt<B, S, E>|
                {
                    &&& #[trigger] went(
                        old(self).connection(),
                        old(self).underway().accept_bidi,
                        begin,
                        poll,
                        attempt,
                    )
                    &&& final(self).underway() == (Underway {
                        accept_bidi: kept(attempt),
                        ..old(self).underway()
                    })
                    &&& match attempt {
                        Attempt::Pending(_) => r is Pending,
                        Attempt::Done(stream) => r matches Polled::Ready(accepted)
                            && accepted.inner == stream && accepted.send_buf@.len() == 0,
                        Attempt::Failed(_) => r == Polled::<
                            H3BidiStream<S>,
                            ConnectionClosed,
                        >::Failed(closed_connection()),
                    }
                },
    {
        match resume(&self.inner, &mut self.accept_bidi, begin, poll) {
            Polled::Pending => Polled::Pending,
            Polled::Ready(stream) => Polled::Ready(H3BidiStream::new(stream)),
            Polled::Failed(_) => Polled::Failed(conn_closed()),
        }
    }

    /// Polls for a stream with a receiving half to be accepted.
    pub fn poll_accept_recv<S, E, G: FnOnce(C) -> R, F: FnOnce(R) -> Attempt<R, S, E>>(
        &mut self,
        begin: G,
        poll: F,
    ) -> (r: Polled<H3RecvStream<S>, ConnectionClosed>)
        requires
            old(self).underway().accept_uni is None ==> forall|connection: C| #[trigger]
                begin.requires((connection,)),
            forall|operation: R| #[trigger] poll.requires((operation,)),
        ensures
            final(self).connection() == old(self).connection(),
            exists|attempt: Attempt<R, S, E>|
                {
                    &&& #[trigger] went(
                        old(self).connection(),
                        old(self).underway().accept_uni,
                        begin,
                        poll,
                        attempt,
                    )
                    &&& final(self).underway() == (Underway {
                        accept_uni: kept(attempt),
                        ..old(self).underway()
                    })
                    &&& match attempt {
                        Attempt::Pending(_) => r is Pending,
                        Attempt::Done(stream) => r matches Polled::Ready(accepted)
                            && accepted.inner == stream,
                        Attempt::Failed(_) => r == Polled::<
                            H3RecvStream<S>,
                            ConnectionClosed,
                        >::Failed(closed_connection()),
                    }
                },
    {
        match resume(&self.inner, &mut self.accept_uni, begin, poll) {
            Polled::Pending => Polled::Pending,
            Polled::Ready(stream) => Polled::Ready(H3RecvStream::new(stream)),
            Polled::Failed(_) => Polled::Failed(conn_closed()),
        }
    }
}

/// An operation is kept exactly while it is under way. The one that is under way is the one
/// that is polled, and a fresh one is begun, on a clone of the connection, exactly where none
/// is.
pub proof fn law_poll_resumes<
    C: Clone,
    O,
    T,
    E,
    B: FnOnce(C) -> O,
    F: FnOnce(O) -> Attempt<O, T, E>,
>(inner: C, slot: Option<O>, begin: B, poll: F, attempt: Attempt<O, T, E>)
    requires
        went(inner, slot, begin, poll, attempt),
    ensures
        attempt matches Attempt::Pending(operation) ==> kept(attempt) == Some(operation),
        !(attempt is Pending) ==> kept(attempt) is None,
        slot matches Some(operation) ==> poll.ensures((operation,), attempt),
        slot is None ==> exists|connection: C, operation: O|
            {
                &&& cloned(inner, connection)
                &&& #[trigger] begin.ensures((connection,), operation)
                &&& #[trigger] poll.ensures((operation,), attempt)
            },
{
}

} // verus!
