//! Sending one request over HTTP/3 and reading its response.
//!
//! A request is sent by opening a request stream with the request's head, sending the data
//! of the body frame by frame, finishing the stream and receiving the head of the response.
//! The I/O is done elsewhere; [`H3Exchange`] decides, from the outcome of each piece of it,
//! what comes next.

use bytes::Bytes;
use vstd::prelude::*;

use crate::body::{body_data, BodyPoll};
use crate::buf::{bytes_copy_of, bytes_of, chunk};
use crate::transport::Polled;

verus! {

/// The HTTP/3 application plugin.
#[derive(Clone, Copy, Debug)]
pub struct H3App;

impl H3App {
    /// Creates a plugin.
    pub fn new() -> (r: Self)
        ensures
            r == H3App,
    {
        H3App
    }
}

impl Default for H3App {
    fn default() -> (r: Self)
        ensures
            r == H3App,
    {
        H3App
    }
}

/// An error of an HTTP/3 stream, as a response body reports it.
#[derive(Debug)]
pub struct H3Error<E>(pub E);

/// The I/O that is under way.
#[derive(Clone, Copy, Debug, PartialEq, Eq, Structural)]
pub enum ExchangeStage {
    /// A request stream is being opened.
    Opening,
    /// The next frame of the body is awaited.
    Reading,
    /// Data is being sent.
    Sending,
    /// The stream is being finished.
    Finishing,
    /// The head of the response is awaited.
    Receiving,
    /// The exchange is over.
    Done,
}

/// The outcome of the I/O that was under way.
#[derive(Debug)]
pub enum ExchangeOutcome<P, E> {
    /// The request stream is open and the request's head is sent.
    Opened,
    /// The body was polled until it was ready.
    Frame(BodyPoll<E>),
    /// The data was sent.
    Sent,
    /// The stream was finished.
    Finished,
    /// The head of the response arrived.
    Received(P),
    /// The stream failed.
    Failed(E),
}

/// What to do next. `D` is what carries the data.
#[derive(Debug)]
pub enum ExchangeAction<D, P, E> {
    /// Await the next frame of the body.
    ReadFrame,
    /// Send this data.
    SendData(D),
    /// Finish the stream.
    Finish,
    /// Await the head of the response.
    ReceiveResponse,
    /// Return the response.
    Respond(P),
    /// Return the error.
    Fail(E),
}

impl<P, E> View for ExchangeAction<Bytes, P, E> {
    type V = ExchangeAction<Seq<u8>, P, E>;

    open spec fn view(&self) -> ExchangeAction<Seq<u8>, P, E> {
        match *self {
            ExchangeAction::ReadFrame => ExchangeAction::ReadFrame,
            ExchangeAction::SendData(data) => ExchangeAction::SendData(bytes_of(data)),
            ExchangeAction::Finish => ExchangeAction::Finish,
            ExchangeAction::ReceiveResponse => ExchangeAction::ReceiveResponse,
            ExchangeAction::Respond(response) => ExchangeAction::Respond(response),
            ExchangeAction::Fail(error) => ExchangeAction::Fail(error),
        }
    }
}

/// Whether an outcome can come of the I/O of a stage.
pub open spec fn exchange_expected<P, E>(
    stage: ExchangeStage,
    outcome: ExchangeOutcome<P, E>,
) -> bool {
    match outcome {
        ExchangeOutcome::Opened => stage == ExchangeStage::Opening,
        ExchangeOutcome::Frame(frame) => stage == ExchangeStage::Reading && !(frame is Pending),
        ExchangeOutcome::Sent => stage == ExchangeStage::Sending,
        ExchangeOutcome::Finished => stage == ExchangeStage::Finishing,
        ExchangeOutcome::Received(_) => stage == ExchangeStage::Receiving,
        ExchangeOutcome::Failed(_) => stage != ExchangeStage::Reading && stage
            != ExchangeStage::Done,
    }
}

/// The stage that follows an outcome, and what to do in it.
pub open spec fn exchange_step<P, E>(outcome: ExchangeOutcome<P, E>) -> (
    ExchangeStage,
    ExchangeAction<Seq<u8>, P, E>,
) {
    match outcome {
        ExchangeOutcome::Opened => (ExchangeStage::Reading, ExchangeAction::ReadFrame),
        ExchangeOutcome::Frame(BodyPoll::Data(frame)) => (
            ExchangeStage::Sending,
            ExchangeAction::SendData(bytes_of(frame)),
        ),
        ExchangeOutcome::Frame(BodyPoll::Trailers) => (
            ExchangeStage::Reading,
            ExchangeAction::ReadFrame,
        ),
        ExchangeOutcome::Frame(BodyPoll::Pending) => (
            ExchangeStage::Reading,
            ExchangeAction::ReadFrame,
        ),
        ExchangeOutcome::Frame(BodyPoll::Failed(error)) => (
            ExchangeStage::Done,
            ExchangeAction::Fail(error),
        ),
        ExchangeOutcome::Frame(BodyPoll::End) => (
            ExchangeStage::Finishing,
            ExchangeAction::Finish,
        ),
        ExchangeOutcome::Sent => (ExchangeStage::Reading, ExchangeAction::ReadFrame),
        ExchangeOutcome::Finished => (ExchangeStage::Receiving, ExchangeAction::ReceiveResponse),
        ExchangeOutcome::Received(response) => (
            ExchangeStage::Done,
            ExchangeAction::Respond(response),
        ),
        ExchangeOutcome::Failed(error) => (ExchangeStage::Done, ExchangeAction::Fail(error)),
    }
}

/// Whether outcomes can come one after the other, beginning with the I/O of `stage`.
pub open spec fn exchange_possible<P, E>(
    stage: ExchangeStage,
    outcomes: Seq<ExchangeOutcome<P, E>>,
) -> bool
    decreases outcomes.len(),
{
    outcomes.len() == 0 || {
        &&& exchange_expected(stage, outcomes.first())
        &&& exchange_possible(exchange_step(outcomes.first()).0, outcomes.drop_first())
    }
}

/// The frames that the body gave in the course of these outcomes.
pub open spec fn frames_read<P, E>(outcomes: Seq<ExchangeOutcome<P, E>>) -> Seq<BodyPoll<E>>
    decreases outcomes.len(),
{
    if outcomes.len() == 0 {
        Seq::empty()
    } else {
        match outcomes.first() {
            ExchangeOutcome::Frame(frame) => seq![frame] + frames_read(outcomes.drop_first()),
            _ => frames_read(outcomes.drop_first()),
        }
    }
}

/// The data that is sent in the course of these outcomes.
pub open spec fn data_sent<P, E>(outcomes: Seq<ExchangeOutcome<P, E>>) -> Seq<u8>
    decreases outcomes.len(),
{
    if outcomes.len() == 0 {
        Seq::empty()
    } else {
        match exchange_step(outcomes.first()).1 {
            ExchangeAction::SendData(data) => data + data_sent(outcomes.drop_first()),
            _ => data_sent(outcomes.drop_first()),
        }
    }
}

/// Once the body is over, it is not read again and nothing more is sent.
proof fn lemma_nothing_after_end<P, E>(
    stage: ExchangeStage,
    outcomes: Seq<ExchangeOutcome<P, E>>,
)
    requires
        exchange_possible(stage, outcomes),
        stage == ExchangeStage::Finishing || stage == ExchangeStage::Receiving || stage
            == ExchangeStage::Done,
    ensures
        data_sent(outcomes) == Seq::<u8>::empty(),
        frames_read(outcomes) == Seq::<BodyPoll<E>>::empty(),
    decreases outcomes.len(),
{
    if outcomes.len() > 0 {
        lemma_nothing_after_end(exchange_step(outcomes.first()).0, outcomes.drop_first());
    }
}

/// The data of the body is sent as it is: at every moment of an exchange, what was sent is
/// the data of the frames that were read, in order.
pub proof fn law_body_is_sent<P, E>(stage: ExchangeStage, outcomes: Seq<ExchangeOutcome<P, E>>)
    requires
        exchange_possible(stage, outcomes),
    ensures
        data_sent(outcomes) == body_data(frames_read(outcomes)),
    decreases outcomes.len(),
{
    if outcomes.len() > 0 {
        let rest = outcomes.drop_first();
        let next = exchange_step(outcomes.first()).0;
        law_body_is_sent(next, rest);
        match outcomes.first() {
            ExchangeOutcome::Frame(frame) => {
                let frames = frames_read(outcomes);
                assert(frames.first() == frame);
                assert(frames.drop_first() =~= frames_read(rest));
                if frame is End || frame is Failed {
                    lemma_nothing_after_end(next, rest);
                }
            },
            _ => {},
        }
    }
}

/// A response is returned only for a whole request: an exchange that returns one has read
/// the body to its end without a failure, and then finished the stream and received the
/// response, in this order.
pub proof fn law_response_follows_whole_body<P, E>(
    stage: ExchangeStage,
    outcomes: Seq<ExchangeOutcome<P, E>>,
)
    requires
        exchange_possible(stage, outcomes),
        stage == ExchangeStage::Opening || stage == ExchangeStage::Reading || stage
            == ExchangeStage::Sending,
        outcomes.len() > 0,
        outcomes.last() is Received,
    ensures
        outcomes.len() >= 3,
        outcomes[outcomes.len() - 3] == ExchangeOutcome::<P, E>::Frame(BodyPoll::End),
        outcomes[outcomes.len() - 2] is Finished,
        forall|i: int|
            0 <= i < outcomes.len() - 3 ==> {
                let outcome = #[trigger] outcomes[i];
                ||| outcome is Opened
                ||| outcome is Sent
                ||| outcome matches ExchangeOutcome::Frame(frame) && (frame is Data
                    || frame is Trailers)
            },
    decreases outcomes.len(),
{
    let rest = outcomes.drop_first();
    let next = exchange_step(outcomes.first()).0;
    assert(rest.len() > 0 ==> rest.last() == outcomes.last());
    if next == ExchangeStage::Done {
        assert(rest.len() > 0 ==> !exchange_possible(next, rest));
        assert(outcomes.len() == 1 ==> outcomes.first() == outcomes.last());
    } else if next == ExchangeStage::Finishing {
        reveal_with_fuel(exchange_possible, 4);
        assert(rest.len() > 0);
        let tail = rest.drop_first();
        assert(tail.len() > 0) by {
            if rest.len() == 1 {
                assert(rest.first() == rest.last());
            }
        }
        assert(tail.last() == rest.last());
        assert(tail.len() == 1) by {
            if tail.len() > 1 {
                assert(exchange_possible(ExchangeStage::Done, tail.drop_first()));
            }
        }
        assert(outcomes[1] == rest.first());
        assert(outcomes[2] == tail.first());
    } else {
        assert(rest.len() > 0) by {
            if outcomes.len() == 1 {
                assert(outcomes.first() == outcomes.last());
            }
        }
        law_response_follows_whole_body(next, rest);
        assert(outcomes[outcomes.len() - 3] == rest[rest.len() - 3]);
        assert(outcomes[outcomes.len() - 2] == rest[rest.len() - 2]);
        assert forall|i: int| 0 <= i < outcomes.len() - 3 implies {
            let outcome = #[trigger] outcomes[i];
            ||| outcome is Opened
            ||| outcome is Sent
            ||| outcome matches ExchangeOutcome::Frame(frame) && (frame is Data
                || frame is Trailers)
        } by {
            if i > 0 {
                assert(outcomes[i] == rest[i - 1]);
            }
        }
    }
}

/// The state of one exchange.
#[derive(Debug)]
pub struct H3Exchange {
    stage: ExchangeStage,
}

impl H3Exchange {
    /// The I/O that is under way.
    pub closed spec fn stage(&self) -> ExchangeStage {
        self.stage
    }

    /// A fresh exchange: it begins by opening a request stream.
    pub fn opening() -> (r: Self)
        ensures
            r.stage() == ExchangeStage::Opening,
    {
        H3Exchange { stage: ExchangeStage::Opening }
    }

    /// Takes the outcome of the I/O under way and decides what comes next.
    pub fn advance<P, E>(&mut self, outcome: ExchangeOutcome<P, E>) -> (r: ExchangeAction<
        Bytes,
        P,
        E,
    >)
        requires
            exchange_expected(old(self).stage(), outcome),
        ensures
            (final(self).stage(), r@) == exchange_step(outcome),
    {
        match outcome {
            ExchangeOutcome::Opened | ExchangeOutcome::Sent => {
                self.stage = ExchangeStage::Reading;
                ExchangeAction::ReadFrame
            },
            ExchangeOutcome::Frame(frame) => match frame {
                BodyPoll::Data(data) => {
                    self.stage = ExchangeStage::Sending;
                    ExchangeAction::SendData(bytes_copy_of(chunk(&data)))
                },
                BodyPoll::Trailers | BodyPoll::Pending => {
                    self.stage = ExchangeStage::Reading;
                    ExchangeAction::ReadFrame
                },
                BodyPoll::Failed(error) => {
                    self.stage = ExchangeStage::Done;
                    ExchangeAction::Fail(error)
                },
                BodyPoll::End => {
                    self.stage = ExchangeStage::Finishing;
                    ExchangeAction::Finish
                },
            },
            ExchangeOutcome::Finished => {
                self.stage = ExchangeStage::Receiving;
                ExchangeAction::ReceiveResponse
            },
            ExchangeOutcome::Received(response) => {
                self.stage = ExchangeStage::Done;
                ExchangeAction::Respond(response)
            },
            ExchangeOutcome::Failed(error) => {
                self.stage = ExchangeStage::Done;
                ExchangeAction::Fail(error)
            },
        }
    }
}

/// The body of a response, over the request stream that it arrives on.
pub struct H3ResponseBody<S> {
    /// The request stream.
    pub stream: S,
}

impl<S> H3ResponseBody<S> {
    /// Turns the outcome of polling the stream for data into that of polling the body.
    pub fn poll_frame<E>(received: Polled<Option<Bytes>, E>) -> (r: BodyPoll<H3Error<E>>)
        ensures
            match received {
                Polled::Pending => r is Pending,
                Polled::Ready(Some(data)) => r matches BodyPoll::Data(frame) && bytes_of(frame)
                    == bytes_of(data),
                Polled::Ready(None) => r is End,
                Polled::Failed(error) => r matches BodyPoll::Failed(reported) && reported.0
                    == error,
            },
    {
        match received {
            Polled::Pending => BodyPoll::Pending,
            Polled::Ready(Some(data)) => BodyPoll::Data(data),
            Polled::Ready(None) => BodyPoll::End,
            Polled::Failed(error) => BodyPoll::Failed(H3Error(error)),
        }
    }
}

/// Each outcome is followed by the I/O that it allows: data of the body is sent as it is,
/// every byte of it, the end of the body finishes the stream, a frame without data is passed
/// over, and a response and an error, be it the body's or the stream's, are returned as they
/// are, which ends the exchange.
pub proof fn law_each_outcome_is_followed<P, E>(outcome: ExchangeOutcome<P, E>)
    ensures
        outcome is Opened || outcome is Sent ==> exchange_step(outcome) == (
            ExchangeStage::Reading,
            ExchangeAction::<Seq<u8>, P, E>::ReadFrame,
        ),
        outcome matches ExchangeOutcome::Frame(polled) ==> {
            &&& polled matches BodyPoll::Data(frame) ==> exchange_step(outcome) == (
                ExchangeStage::Sending,
                ExchangeAction::<Seq<u8>, P, E>::SendData(bytes_of(frame)),
            )
            &&& polled is Trailers || polled is Pending ==> exchange_step(outcome) == (
                ExchangeStage::Reading,
                ExchangeAction::<Seq<u8>, P, E>::ReadFrame,
            )
            &&& polled matches BodyPoll::Failed(error) ==> exchange_step(outcome) == (
                ExchangeStage::Done,
                ExchangeAction::<Seq<u8>, P, E>::Fail(error),
            )
            &&& polled is End ==> exchange_step(outcome) == (
                ExchangeStage::Finishing,
                ExchangeAction::<Seq<u8>, P, E>::Finish,
            )
        },
        outcome is Finished ==> exchange_step(outcome) == (
            ExchangeStage::Receiving,
            ExchangeAction::<Seq<u8>, P, E>::ReceiveResponse,
        ),
        outcome matches ExchangeOutcome::Received(response) ==> exchange_step(outcome) == (
            ExchangeStage::Done,
            ExchangeAction::<Seq<u8>, P, E>::Respond(response),
        ),
        outcome matches ExchangeOutcome::Failed(error) ==> exchange_step(outcome) == (
            ExchangeStage::Done,
            ExchangeAction::<Seq<u8>, P, E>::Fail(error),
        ),
{
}

/// The body of a response ends as its stream does and gives the data of the stream, every byte
/// of it.
pub proof fn law_response_body_is_stream<S, E>(
    received: Polled<Option<Bytes>, E>,
    r: BodyPoll<H3Error<E>>,
)
    requires
        call_ensures(H3ResponseBody::<S>::poll_frame::<E>, (received,), r),
    ensures
        received is Pending <==> r is Pending,
        received matches Polled::Failed(error) ==> (r matches BodyPoll::Failed(reported)
            && reported.0 == error),
        received matches Polled::Ready(None) ==> r is End,
        received matches Polled::Ready(Some(data)) ==> (r matches BodyPoll::Data(frame)
            && bytes_of(frame) == bytes_of(data)),
        !(r is Trailers),
{
}

/// An exchange does what [`law_each_outcome_is_followed`] says.
pub proof fn law_exchange_advances<P, E>(
    exchange: &mut H3Exchange,
    outcome: ExchangeOutcome<P, E>,
    r: ExchangeAction<Bytes, P, E>,
)
    requires
        call_ensures(H3Exchange::advance::<P, E>, (exchange, outcome), r),
    ensures
        outcome is Opened || outcome is Sent ==> final(exchange).stage() == ExchangeStage::Reading
            && r is ReadFrame,
        outcome matches ExchangeOutcome::Frame(polled) ==> {
            &&& polled matches BodyPoll::Data(frame) ==> final(exchange).stage()
                == ExchangeStage::Sending && (r matches ExchangeAction::SendData(data) && bytes_of(
                data,
            ) == bytes_of(frame))
            &&& polled is Trailers || polled is Pending ==> final(exchange).stage()
                == ExchangeStage::Reading && r is ReadFrame
            &&& polled matches BodyPoll::Failed(error) ==> final(exchange).stage()
                == ExchangeStage::Done && r == ExchangeAction::<Bytes, P, E>::Fail(error)
            &&& polled is End ==> final(exchange).stage() == ExchangeStage::Finishing && r is Finish
        },
        outcome is Finished ==> final(exchange).stage() == ExchangeStage::Receiving && r
            is ReceiveResponse,
        outcome matches ExchangeOutcome::Received(response) ==> final(exchange).stage()
            == ExchangeStage::Done && r == ExchangeAction::<Bytes, P, E>::Respond(response),
        outcome matches ExchangeOutcome::Failed(error) ==> final(exchange).stage()
            == ExchangeStage::Done && r == ExchangeAction::<Bytes, P, E>::Fail(error),
{
    law_each_outcome_is_followed(outcome);
}

} // verus!
