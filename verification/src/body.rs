//! What polling a response body yields, and what a stream over it answers.

use bytes::Bytes;
use vstd::prelude::*;

use crate::buf::bytes_of;

verus! {

/// The outcome of polling an HTTP body for its next frame.
#[derive(Debug)]
pub enum BodyPoll<E> {
    /// No frame yet; the body will wake the task.
    Pending,
    /// A data frame.
    Data(Bytes),
    /// A frame that carries no data, such as trailers.
    Trailers,
    /// The body failed.
    Failed(E),
    /// The body is over.
    End,
}

/// The answer of a stream that is built over a body.
#[derive(Debug)]
pub enum StreamStep<T, E> {
    /// The next item.
    Item(T),
    /// The body's error, handed on.
    Failed(E),
    /// The stream is over.
    End,
    /// No item yet; the body will wake the task.
    Pending,
    /// No item yet; the task is to be woken at once, since the body may hold more.
    Wake,
}

impl<T: View, E> View for StreamStep<T, E> {
    type V = StreamStep<T::V, E>;

    open spec fn view(&self) -> StreamStep<T::V, E> {
        match *self {
            StreamStep::Item(item) => StreamStep::Item(item@),
            StreamStep::Failed(error) => StreamStep::Failed(error),
            StreamStep::End => StreamStep::End,
            StreamStep::Pending => StreamStep::Pending,
            StreamStep::Wake => StreamStep::Wake,
        }
    }
}

/// The bytes of frames, one behind the other.
pub open spec fn frame_bytes(frames: Seq<Seq<u8>>) -> Seq<u8>
    decreases frames.len(),
{
    if frames.len() == 0 {
        Seq::empty()
    } else {
        frame_bytes(frames.drop_last()) + frames.last()
    }
}

/// How a stream or a body is over.
pub enum Ending<E> {
    /// It failed.
    Failed(E),
    /// It came to its end.
    End,
}

/// How a body that is polled with these outcomes is over: by the first outcome that is neither
/// data nor trailers nor pending, if there is one.
pub open spec fn body_ending<E>(polls: Seq<BodyPoll<E>>) -> Option<Ending<E>>
    decreases polls.len(),
{
    if polls.len() == 0 {
        None
    } else {
        match polls.first() {
            BodyPoll::Failed(error) => Some(Ending::Failed(error)),
            BodyPoll::End => Some(Ending::End),
            BodyPoll::Data(_) | BodyPoll::Trailers | BodyPoll::Pending => body_ending(
                polls.drop_first(),
            ),
        }
    }
}

/// The bytes of a body that is polled with these outcomes: those of its data frames, one
/// behind the other, up to its end or its failure.
pub open spec fn body_data<E>(polls: Seq<BodyPoll<E>>) -> Seq<u8>
    decreases polls.len(),
{
    if polls.len() == 0 {
        Seq::empty()
    } else {
        match polls.first() {
            BodyPoll::Data(frame) => bytes_of(frame) + body_data(polls.drop_first()),
            BodyPoll::Trailers | BodyPoll::Pending => body_data(polls.drop_first()),
            BodyPoll::Failed(_) | BodyPoll::End => Seq::empty(),
        }
    }
}

} // verus!
