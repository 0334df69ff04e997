//! QUIC streams and connections as HTTP/3 wants them.
//!
//! The transport's own I/O is done elsewhere. What is decided here is what HTTP/3 sees of
//! it: the bytes of a read, what is still to be written, which operation on a connection is
//! under way, and the errors.

use bytes::{Bytes, BytesMut};
use vstd::prelude::*;

use crate::buf::{
    advance, bytes_from_vec, bytes_of, chunk, has_remaining, pending_advance, pending_chunk,
    pending_extend, pending_is_empty, pending_new, pending_of,
};
use crate::transport::Polled;

verus! {

/// The largest stream id: ids have 62 bits.
pub const MAX_STREAM_ID: u64 = 0x3fff_ffff_ffff_ffff;

/// The number of bytes that one read asks for.
pub const READ_SIZE: usize = 4096;

/// `h3::error::Code::H3_NO_ERROR`, as a number.
#[verifier::external_body]
fn no_error_code() -> (r: u64)
    ensures
        r == 0x100,
{
    h3::error::Code::H3_NO_ERROR.value()
}

/// `h3::quic::StreamId::try_from(u64)`: accepts the ids of at most 62 bits, as they are.
#[verifier::external_body]
fn valid_stream_id(id: u64) -> (r: Option<u64>)
    ensures
        r == if id <= MAX_STREAM_ID {
            Some(id)
        } else {
            None
        },
{
    h3::quic::StreamId::try_from(id).ok().map(|valid| valid.into_inner())
}

/// The connection was closed by the application.
#[derive(Clone, Copy, Debug, PartialEq, Eq, Structural)]
pub struct ConnectionClosed {
    /// The code that it was closed with.
    pub error_code: u64,
}

/// The stream is gone, since its connection was closed.
#[derive(Clone, Copy, Debug, PartialEq, Eq, Structural)]
pub struct StreamClosed {
    /// The error of the connection.
    pub connection_error: ConnectionClosed,
}

/// The error that stands for every failure of a connection.
pub open spec fn closed_connection() -> ConnectionClosed {
    ConnectionClosed { error_code: 0x100 }
}

/// The error that stands for every failure of a stream.
pub open spec fn closed_stream() -> StreamClosed {
    StreamClosed { connection_error: closed_connection() }
}

/// The error that stands for every failure of a connection.
pub fn conn_closed() -> (r: ConnectionClosed)
    ensures
        r == closed_connection(),
        r.error_code == 0x100,
{
    ConnectionClosed { error_code: no_error_code() }
}

/// The error that stands for every failure of a stream.
pub fn stream_error() -> (r: StreamClosed)
    ensures
        r == closed_stream(),
        r.connection_error.error_code == 0x100,
{
    StreamClosed { connection_error: conn_closed() }
}

/// What HTTP/3 sees of a read that `buffer` was handed to.
pub open spec fn data_of_read<E>(buffer: Seq<u8>, read: Polled<usize, E>) -> Polled<
    Option<Seq<u8>>,
    StreamClosed,
> {
    match read {
        Polled::Pending => Polled::Pending,
        Polled::Ready(count) => if count == 0 {
            Polled::Ready(None)
        } else if count < buffer.len() {
            Polled::Ready(Some(buffer.take(count as int)))
        } else {
            Polled::Ready(Some(buffer))
        },
        Polled::Failed(_) => Polled::Failed(closed_stream()),
    }
}

/// The data of a read, as plain bytes.
pub open spec fn read_view(data: Polled<Option<Bytes>, StreamClosed>) -> Polled<
    Option<Seq<u8>>,
    StreamClosed,
> {
    match data {
        Polled::Pending => Polled::Pending,
        Polled::Ready(None) => Polled::Ready(None),
        Polled::Ready(Some(bytes)) => Polled::Ready(Some(bytes_of(bytes))),
        Polled::Failed(error) => Polled::Failed(error),
    }
}

/// The buffer that a read is to fill: all zero.
pub fn read_buffer() -> (r: Vec<u8>)
    ensures
        r@ == Seq::new(READ_SIZE as nat, |i: int| 0u8),
        r@.len() == 4096,
{
    let mut buffer: Vec<u8> = Vec::with_capacity(READ_SIZE);
    while buffer.len() < READ_SIZE
        invariant
            buffer@.len() <= READ_SIZE,
            forall|i: int| 0 <= i < buffer@.len() ==> #[trigger] buffer@[i] == 0,
        decreases READ_SIZE - buffer@.len(),
    {
        buffer.push(0);
    }
    assert(buffer@ =~= Seq::new(READ_SIZE as nat, |i: int| 0u8));
    buffer
}

/// Turns the outcome of a read that `buffer` was handed to into data: as many bytes as were
/// read, none at the end.
pub fn received<E>(buffer: Vec<u8>, read: Polled<usize, E>) -> (r: Polled<
    Option<Bytes>,
    StreamClosed,
>)
    ensures
        read_view(r) == data_of_read(buffer@, read),
        read matches Polled::Ready(count) ==> {
            &&& count == 0 <==> (r matches Polled::Ready(None))
            &&& 0 < count <= buffer@.len() ==> (r matches Polled::Ready(Some(data)) && bytes_of(
                data,
            ) == buffer@.take(count as int))
            &&& count > buffer@.len() ==> (r matches Polled::Ready(Some(data)) && bytes_of(data)
                == buffer@)
        },
        read is Pending <==> r is Pending,
        read is Failed <==> r is Failed,
        r matches Polled::Failed(error) ==> error.connection_error.error_code == 0x100,
{
    match read {
        Polled::Pending => Polled::Pending,
        Polled::Ready(count) => {
            if count == 0 {
                Polled::Ready(None)
            } else {
                let ghost whole = buffer@;
                let mut buffer = buffer;
                buffer.truncate(count);
                assert(buffer@ =~= if count < whole.len() {
                    whole.take(count as int)
                } else {
                    whole
                });
                Polled::Ready(Some(bytes_from_vec(buffer)))
            }
        },
        Polled::Failed(_) => Polled::Failed(stream_error()),
    }
}

/// What the transport read is handed on: of every read of some bytes, as many bytes as were
/// read and these bytes, from the start of the buffer; of a read of none, the end. A failure
/// is handed on as one, whatever the transport's error, with the code of a connection that was
/// closed without an error, and a read that is pending is pending.
pub proof fn law_read_is_handed_on<E>(
    buffer: Vec<u8>,
    read: Polled<usize, E>,
    r: Polled<Option<Bytes>, StreamClosed>,
)
    requires
        call_ensures(received::<E>, (buffer, read), r),
    ensures
        read_view(r) == data_of_read(buffer@, read),
        match read {
            Polled::Pending => r is Pending,
            Polled::Ready(count) => {
                &&& count == 0 ==> (r matches Polled::Ready(None))
                &&& 0 < count <= buffer@.len() ==> {
                    &&& r matches Polled::Ready(Some(data))
                    &&& bytes_of(data).len() == count
                    &&& forall|i: int| 0 <= i < count ==> #[trigger] bytes_of(data)[i] == buffer@[i]
                }
                &&& count > buffer@.len() ==> (r matches Polled::Ready(Some(data)) && bytes_of(data)
                    == buffer@)
            },
            Polled::Failed(_) => r matches Polled::Failed(error)
                && error.connection_error.error_code == 0x100,
        },
{
}

/// The bytes that the transport delivered in reads, each into a buffer of its own.
pub open spec fn delivered<E>(reads: Seq<(Seq<u8>, Polled<usize, E>)>) -> Seq<u8>
    decreases reads.len(),
{
    if reads.len() == 0 {
        Seq::empty()
    } else {
        delivered(reads.drop_last()) + match reads.last().1 {
            Polled::Ready(count) => reads.last().0.subrange(0, count as int),
            _ => Seq::empty(),
        }
    }
}

/// The data that HTTP/3 sees of reads, one behind the other.
pub open spec fn handed_on<E>(reads: Seq<(Seq<u8>, Polled<usize, E>)>) -> Seq<u8>
    decreases reads.len(),
{
    if reads.len() == 0 {
        Seq::empty()
    } else {
        handed_on(reads.drop_last()) + match data_of_read(reads.last().0, reads.last().1) {
            Polled::Ready(Some(data)) => data,
            _ => Seq::empty(),
        }
    }
}

/// Nothing is lost, added, repeated or reordered on the way from the transport: the data that
/// is handed on, one piece behind the other, is the bytes that the transport delivered.
pub proof fn law_received_in_order<E>(reads: Seq<(Seq<u8>, Polled<usize, E>)>)
    requires
        forall|i: int|
            0 <= i < reads.len() ==> ((#[trigger] reads[i]).1 matches Polled::Ready(count) ==> count
                <= reads[i].0.len()),
    ensures
        handed_on(reads) == delivered(reads),
    decreases reads.len(),
{
    if reads.len() > 0 {
        let init = reads.drop_last();
        let (buffer, read) = reads.last();
        assert forall|i: int| 0 <= i < init.len() implies ((#[trigger] init[i]).1 matches
            Polled::Ready(count) ==> count <= init[i].0.len()) by {
            assert(init[i] == reads[i]);
        }
        law_received_in_order(init);
        assert(reads.last() == reads[reads.len() - 1]);
        if let Polled::Ready(count) = read {
            if count == 0 {
                assert(buffer.subrange(0, 0) =~= Seq::<u8>::empty());
            } else if count == buffer.len() {
                assert(buffer.subrange(0, count as int) =~= buffer);
            } else {
                assert(buffer.subrange(0, count as int) =~= buffer.take(count as int));
            }
        }
    }
}

/// A stream keeps its id on the way to HTTP/3, on either half, unless it has more than 62
/// bits: it is 0 then.
pub proof fn law_stream_keeps_its_id<S>(id: u64, r: u64)
    requires
        call_ensures(H3RecvStream::<S>::recv_id, (id,), r) || call_ensures(
            H3SendStream::<S>::send_id,
            (id,),
            r,
        ),
    ensures
        id < 0x4000_0000_0000_0000 ==> r == id,
        id >= 0x4000_0000_0000_0000 ==> r == 0,
{
}

/// The id that a stream has in HTTP/3, given that of the transport: the same, or 0 where
/// that has more than 62 bits.
pub open spec fn id_or_zero(id: u64) -> u64 {
    if id <= MAX_STREAM_ID {
        id
    } else {
        0
    }
}

fn stream_id_or_zero(id: u64) -> (r: u64)
    ensures
        r == id_or_zero(id),
{
    match valid_stream_id(id) {
        Some(valid) => valid,
        None => 0,
    }
}

/// The receiving half of a stream.
pub struct H3RecvStream<S> {
    /// The transport's stream.
    pub inner: S,
}

impl<S> H3RecvStream<S> {
    /// Wraps a stream of the transport.
    pub fn new(inner: S) -> (r: Self)
        ensures
            r.inner == inner,
    {
        H3RecvStream { inner }
    }

    /// Polls for data: has the transport read into a fresh buffer and hands on what it read.
    pub fn poll_data<E, F: FnOnce(Vec<u8>) -> (Vec<u8>, Polled<usize, E>)>(read: F) -> (r: Polled<
        Option<Bytes>,
        StreamClosed,
    >)
        requires
            forall|buffer: Vec<u8>|
                buffer@ == Seq::new(READ_SIZE as nat, |i: int| 0u8) ==> #[trigger] read.requires(
                    (buffer,),
                ),
        ensures
            exists|buffer: Vec<u8>, outcome: (Vec<u8>, Polled<usize, E>)|
                {
                    &&& buffer@ == Seq::new(READ_SIZE as nat, |i: int| 0u8)
                    &&& #[trigger] read.ensures((buffer,), outcome)
                    &&& read_view(r) == data_of_read(outcome.0@, outcome.1)
                },
    {
        let buffer = read_buffer();
        let ghost fresh = buffer;
        let outcome = read(buffer);
        assert(read.ensures((fresh,), outcome));
        received(outcome.0, outcome.1)
    }

    /// The stream's id in HTTP/3, given that of the transport.
    pub fn recv_id(stream_id: u64) -> (r: u64)
        ensures
            r == id_or_zero(stream_id),
    {
        stream_id_or_zero(stream_id)
    }
}

/// What happened to a send buffer.
pub enum SendEvent {
    /// Data was handed over to be sent.
    Sent(Seq<u8>),
    /// The transport wrote this many bytes.
    Wrote(nat),
}

/// The bytes that were handed over, one behind the other.
pub open spec fn all_sent(events: Seq<SendEvent>) -> Seq<u8>
    decreases events.len(),
{
    if events.len() == 0 {
        Seq::empty()
    } else {
        match events.last() {
            SendEvent::Sent(data) => all_sent(events.drop_last()) + data,
            SendEvent::Wrote(_) => all_sent(events.drop_last()),
        }
    }
}

/// The bytes that the transport wrote, one behind the other, and those that are still to be
/// written, after events on a buffer that began empty.
pub open spec fn sent_and_left(events: Seq<SendEvent>) -> (Seq<u8>, Seq<u8>)
    decreases events.len(),
{
    if events.len() == 0 {
        (Seq::empty(), Seq::empty())
    } else {
        let (sent, left) = sent_and_left(events.drop_last());
        match events.last() {
            SendEvent::Sent(data) => (sent, left + data),
            SendEvent::Wrote(count) => (sent + left.take(count as int), left.skip(count as int)),
        }
    }
}

/// Whether the transport never wrote more than there was.
pub open spec fn possible_events(events: Seq<SendEvent>) -> bool
    decreases events.len(),
{
    events.len() == 0 || {
        &&& possible_events(events.drop_last())
        &&& match events.last() {
            SendEvent::Sent(_) => true,
            SendEvent::Wrote(count) => count <= sent_and_left(events.drop_last()).1.len(),
        }
    }
}

/// Nothing is lost, repeated or reordered on the way to the transport: what it wrote,
/// followed by what is still to be written, is what was handed over.
pub proof fn law_sent_in_order(events: Seq<SendEvent>)
    requires
        possible_events(events),
    ensures
        sent_and_left(events).0 + sent_and_left(events).1 == all_sent(events),
    decreases events.len(),
{
    if events.len() > 0 {
        let before = events.drop_last();
        law_sent_in_order(before);
        let (sent, left) = sent_and_left(before);
        match events.last() {
            SendEvent::Sent(data) => {
                assert(sent + (left + data) =~= (sent + left) + data);
            },
            SendEvent::Wrote(count) => {
                assert((sent + left.take(count as int)) + left.skip(count as int) =~= sent + left);
            },
        }
    }
}

/// What a write tells: whether to go on with the rest, and if not, how polling ends.
pub open spec fn after_write<E>(left: Seq<u8>, written: Polled<usize, E>) -> Option<
    Polled<(), StreamClosed>,
> {
    match written {
        Polled::Pending => Some(Polled::Pending),
        Polled::Ready(count) => if count == left.len() {
            Some(Polled::Ready(()))
        } else {
            None
        },
        Polled::Failed(_) => Some(Polled::Failed(closed_stream())),
    }
}

/// What is left to be written after a write.
pub open spec fn left_after_write<E>(left: Seq<u8>, written: Polled<usize, E>) -> Seq<u8> {
    match written {
        Polled::Ready(count) => left.skip(count as int),
        _ => left,
    }
}

/// A write of some bytes takes these off the front of what is left and nothing else, and
/// polling is ready as soon as nothing is left, not before; one that is pending or fails
/// takes nothing and ends polling, with the code of a connection that was closed without an
/// error where it fails. A flush is handed on in the same way.
pub proof fn law_write_takes_what_it_wrote<E>(
    left: Seq<u8>,
    written: Polled<usize, E>,
    flushed: Polled<(), E>,
    r: Polled<(), StreamClosed>,
)
    requires
        written matches Polled::Ready(count) ==> count <= left.len(),
        call_ensures(finished::<E>, (flushed,), r),
    ensures
        match written {
            Polled::Pending => {
                &&& left_after_write(left, written) == left
                &&& (after_write(left, written) matches Some(Polled::Pending))
            },
            Polled::Ready(count) => {
                &&& left_after_write(left, written).len() == left.len() - count
                &&& forall|i: int|
                    0 <= i < left.len() - count ==> #[trigger] left_after_write(left, written)[i]
                        == left[count + i]
                &&& after_write(left, written) is None <==> left_after_write(
                    left,
                    written,
                ).len() > 0
                &&& after_write(left, written) matches Some(end) ==> end is Ready
            },
            Polled::Failed(_) => {
                &&& left_after_write(left, written) == left
                &&& (after_write(left, written) matches Some(Polled::Failed(error))
                    && error.connection_error.error_code == 0x100)
            },
        },
        flushed is Pending <==> r is Pending,
        flushed is Ready <==> r is Ready,
        r matches Polled::Failed(error) ==> error.connection_error.error_code == 0x100,
{
}

/// Whether polling went this way: `write` was handed what was left, again and again, with
/// these outcomes, until nothing was left or it could not go on. `rest` is what is left then,
/// and `r` how polling ends.
pub open spec fn drains<E, F: FnMut(&[u8]) -> Polled<usize, E>>(
    write: F,
    left: Seq<u8>,
    outcomes: Seq<Polled<usize, E>>,
    rest: Seq<u8>,
    r: Polled<(), StreamClosed>,
) -> bool
    decreases outcomes.len(),
{
    if outcomes.len() == 0 {
        left.len() == 0 && rest == left && r == Polled::<(), StreamClosed>::Ready(())
    } else {
        &&& left.len() > 0
        &&& exists|data: &[u8]| data@ == left && #[trigger] write.ensures((data,), outcomes.first())
        &&& outcomes.first() matches Polled::Ready(count) ==> 0 < count <= left.len()
        &&& match after_write(left, outcomes.first()) {
            Some(end) => outcomes.len() == 1 && r == end && rest == left_after_write(
                left,
                outcomes.first(),
            ),
            None => drains(
                write,
                left_after_write(left, outcomes.first()),
                outcomes.drop_first(),
                rest,
                r,
            ),
        }
    }
}

/// The number of bytes that were written with these outcomes.
pub open spec fn count_written<E>(outcomes: Seq<Polled<usize, E>>) -> nat
    decreases outcomes.len(),
{
    if outcomes.len() == 0 {
        0
    } else {
        (match outcomes.first() {
            Polled::Ready(count) => count as nat,
            _ => 0nat,
        }) + count_written(outcomes.drop_first())
    }
}

/// Polling is ready only when all is written, and whatever is left otherwise is what follows
/// the bytes that were written.
pub proof fn law_ready_means_written<E, F: FnMut(&[u8]) -> Polled<usize, E>>(
    write: F,
    left: Seq<u8>,
    outcomes: Seq<Polled<usize, E>>,
    rest: Seq<u8>,
    r: Polled<(), StreamClosed>,
)
    requires
        drains(write, left, outcomes, rest, r),
    ensures
        count_written(outcomes) <= left.len(),
        rest == left.skip(count_written(outcomes) as int),
        r is Ready <==> rest.len() == 0,
        left.len() == 0 ==> outcomes.len() == 0,
    decreases outcomes.len(),
{
    if outcomes.len() > 0 {
        let more = outcomes.drop_first();
        match after_write(left, outcomes.first()) {
            Some(_) => {
                assert(more.len() == 0);
                assert(count_written(more) == 0);
                assert(count_written(outcomes) == match outcomes.first() {
                    Polled::Ready(count) => count as nat,
                    _ => 0nat,
                });
                assert(left.skip(0) =~= left);
            },
            None => {
                let next = left_after_write(left, outcomes.first());
                law_ready_means_written(write, next, more, rest, r);
                assert(count_written(outcomes) == outcomes.first()->Ready_0 + count_written(more));
                assert(next.skip(count_written(more) as int) =~= left.skip(
                    count_written(outcomes) as int,
                ));
            },
        }
    } else {
        assert(left.skip(0) =~= left);
    }
}

/// Polling does not stop while the transport takes data: it ends with the last write, pending
/// where that is pending and failed where that fails, and every write before wrote something.
/// Each write was handed all that the writes before it had left, and nothing else.
pub proof fn law_polling_ends_as_last_write<E, F: FnMut(&[u8]) -> Polled<usize, E>>(
    write: F,
    left: Seq<u8>,
    outcomes: Seq<Polled<usize, E>>,
    rest: Seq<u8>,
    r: Polled<(), StreamClosed>,
    i: int,
)
    requires
        drains(write, left, outcomes, rest, r),
        0 <= i < outcomes.len(),
    ensures
        r is Pending <==> outcomes.last() is Pending,
        r is Failed <==> outcomes.last() is Failed,
        r matches Polled::Failed(error) ==> error.connection_error.error_code == 0x100,
        i < outcomes.len() - 1 ==> outcomes[i] is Ready,
        outcomes[i] matches Polled::Ready(count) ==> count > 0,
        count_written(outcomes.take(i)) <= left.len(),
        exists|data: &[u8]|
            data@ == left.skip(count_written(outcomes.take(i)) as int) && #[trigger] write.ensures(
                (data,),
                outcomes[i],
            ),
    decreases outcomes.len(),
{
    let more = outcomes.drop_first();
    let first = outcomes.first();
    if i == 0 {
        assert(outcomes.take(0) =~= Seq::<Polled<usize, E>>::empty());
        assert(count_written(outcomes.take(0)) == 0);
        assert(left.skip(0) =~= left);
    }
    if outcomes.len() == 1 {
        assert(outcomes.last() == first);
        if after_write(left, first) is None {
            assert(drains(write, left_after_write(left, first), more, rest, r));
        }
    } else {
        assert(after_write(left, first) is None);
        let next = left_after_write(left, first);
        let at: int = if i == 0 {
            0
        } else {
            i - 1
        };
        law_polling_ends_as_last_write(write, next, more, rest, r, at);
        assert(more.last() == outcomes.last());
        if i > 0 {
            let before = outcomes.take(i);
            assert(before.first() == first);
            assert(before.drop_first() =~= more.take(i - 1));
            assert(count_written(before) == first->Ready_0 + count_written(more.take(i - 1)));
            assert(next.skip(count_written(more.take(i - 1)) as int) =~= left.skip(
                count_written(before) as int,
            ));
            assert(outcomes[i] == more[i - 1]);
        }
    }
}

/// Data on its way to the transport.
pub struct SendBuffer {
    buffer: BytesMut,
}

impl View for SendBuffer {
    type V = Seq<u8>;

    closed spec fn view(&self) -> Seq<u8> {
        pending_of(self.buffer)
    }
}

impl SendBuffer {
    /// Creates an empty buffer.
    pub fn new() -> (r: Self)
        ensures
            r@ == Seq::<u8>::empty(),
    {
        SendBuffer { buffer: pending_new() }
    }

    /// Takes data over, to be sent behind what is there.
    pub fn send_data(&mut self, data: Bytes)
        ensures
            final(self)@ == old(self)@ + bytes_of(data),
    {
        let mut data = data;
        let ghost all = bytes_of(data);
        assert(self@ + bytes_of(data) =~= old(self)@ + all);
        while has_remaining(&data)
            invariant
                self@ + bytes_of(data) == old(self)@ + all,
            decreases bytes_of(data).len(),
        {
            let ghost before = self@;
            let part = chunk(&data);
            let count: usize = part.len();
            let ghost taken = part@;
            pending_extend(&mut self.buffer, part);
            advance(&mut data, count);
            assert(before + taken + bytes_of(data) =~= before + taken);
        }
        assert(self@ + bytes_of(data) =~= self@);
    }

    /// What to have the transport write next: all that is left, if anything is.
    pub fn next_write(&self) -> (r: Option<&[u8]>)
        ensures
            match r {
                Some(data) => data@ == self@ && self@.len() > 0,
                None => self@.len() == 0,
            },
    {
        if pending_is_empty(&self.buffer) {
            None
        } else {
            Some(pending_chunk(&self.buffer))
        }
    }

    /// Has the transport write all that is left. It is handed nothing else, and nothing where
    /// nothing is left.
    pub fn poll_ready<E, F: FnMut(&[u8]) -> Polled<usize, E>>(&mut self, write: F) -> (r: Polled<
        (),
        StreamClosed,
    >)
        requires
            forall|data: &[u8]|
                0 < data@.len() <= old(self)@.len() && data@ == old(self)@.skip(
                    old(self)@.len() - data@.len(),
                ) ==> #[trigger] write.requires((data,)),
            forall|data: &[u8], count: usize|
                data@.len() > 0 && #[trigger] write.ensures((data,), Polled::Ready(count)) ==> 0
                    < count <= data@.len(),
        ensures
            exists|outcomes: Seq<Polled<usize, E>>| #[trigger]
                drains(write, old(self)@, outcomes, final(self)@, r),
    {
        let mut writer = write;
        let ghost all = self@;
        let ghost mut outcomes: Seq<Polled<usize, E>> = Seq::empty();
        assert forall|more: Seq<Polled<usize, E>>, rest: Seq<u8>, r: Polled<(), StreamClosed>|
            #[trigger] drains(write, self@, more, rest, r) implies drains(
            write,
            all,
            outcomes + more,
            rest,
            r,
        ) by {
            assert(outcomes + more =~= more);
        }
        assert(self@ =~= all.skip(0));
        loop
            invariant
                writer == write,
                forall|data: &[u8]|
                    0 < data@.len() <= all.len() && data@ == all.skip(all.len() - data@.len())
                        ==> #[trigger] write.requires((data,)),
                self@.len() <= all.len(),
                self@ == all.skip(all.len() - self@.len()),
                forall|data: &[u8], count: usize|
                    data@.len() > 0 && #[trigger] write.ensures((data,), Polled::Ready(count)) ==> 0
                        < count <= data@.len(),
                all == old(self)@,
                forall|more: Seq<Polled<usize, E>>, rest: Seq<u8>, r: Polled<(), StreamClosed>|
                    #[trigger] drains(write, self@, more, rest, r) ==> drains(
                        write,
                        all,
                        outcomes + more,
                        rest,
                        r,
                    ),
            decreases self@.len(),
        {
            let ghost left = self@;
            match self.next_write() {
                None => {
                    assert(drains(write, left, Seq::empty(), self@, Polled::Ready(())));
                    assert(drains(write, all, outcomes + Seq::empty(), self@, Polled::Ready(())));
                    return Polled::Ready(());
                },
                Some(data) => {
                    let written = writer(data);
                    let ghost outcome = written;
                    assert(exists|data: &[u8]|
                        data@ == left && #[trigger] write.ensures((data,), outcome));
                    if let Some(end) = self.wrote(written) {
                        assert(seq![outcome].first() == outcome);
                        assert(drains(write, left, seq![outcome], self@, end));
                        assert(drains(write, all, outcomes + seq![outcome], self@, end));
                        return end;
                    }
                    assert(self@ =~= all.skip(all.len() - self@.len()));
                    proof {
                        let before = outcomes;
                        outcomes = before.push(outcome);
                        assert forall|
                            more: Seq<Polled<usize, E>>,
                            rest: Seq<u8>,
                            r: Polled<(), StreamClosed>,
                        | #[trigger]
                            drains(write, self@, more, rest, r) implies drains(
                            write,
                            all,
                            outcomes + more,
                            rest,
                            r,
                        ) by {
                            let longer = seq![outcome] + more;
                            assert(longer.first() == outcome);
                            assert(longer.drop_first() =~= more);
                            assert(drains(write, left, longer, rest, r));
                            assert(before + longer =~= outcomes + more);
                        }
                    }
                },
            }
        }
    }

    /// Has the transport write all that is left and then flush. It does not flush before all
    /// is written.
    pub fn poll_finish<
        E,
        F: FnMut(&[u8]) -> Polled<usize, E>,
        G: FnOnce() -> Polled<(), E>,
    >(&mut self, write: F, flush: G) -> (r: Polled<(), StreamClosed>)
        requires
            forall|data: &[u8]|
                0 < data@.len() <= old(self)@.len() && data@ == old(self)@.skip(
                    old(self)@.len() - data@.len(),
                ) ==> #[trigger] write.requires((data,)),
            forall|data: &[u8], count: usize|
                data@.len() > 0 && #[trigger] write.ensures((data,), Polled::Ready(count)) ==> 0
                    < count <= data@.len(),
            (exists|
                outcomes: Seq<Polled<usize, E>>,
                rest: Seq<u8>,
                ready: Polled<(), StreamClosed>,
            | #[trigger]
                drains(write, old(self)@, outcomes, rest, ready) && ready is Ready)
                ==> flush.requires(()),
        ensures
            exists|outcomes: Seq<Polled<usize, E>>, ready: Polled<(), StreamClosed>|
                {
                    &&& #[trigger] drains(write, old(self)@, outcomes, final(self)@, ready)
                    &&& match ready {
                        Polled::Ready(()) => exists|flushed: Polled<(), E>|
                            #[trigger] flush.ensures((), flushed) && r == after_flush(flushed),
                        _ => r == ready,
                    }
                },
    {
        match self.poll_ready(write) {
            Polled::Ready(()) => {
                let flushed = flush();
                finished(flushed)
            },
            Polled::Pending => Polled::Pending,
            Polled::Failed(error) => Polled::Failed(error),
        }
    }

    /// Takes the outcome of a write. `None` means that there is more to be written.
    pub fn wrote<E>(&mut self, written: Polled<usize, E>) -> (r: Option<Polled<(), StreamClosed>>)
        requires
            written matches Polled::Ready(count) ==> count <= old(self)@.len(),
        ensures
            r == after_write(old(self)@, written),
            final(self)@ == left_after_write(old(self)@, written),
    {
        match written {
            Polled::Pending => Some(Polled::Pending),
            Polled::Ready(count) => {
                pending_advance(&mut self.buffer, count);
                if pending_is_empty(&self.buffer) {
                    Some(Polled::Ready(()))
                } else {
                    None
                }
            },
            Polled::Failed(_) => Some(Polled::Failed(stream_error())),
        }
    }
}

/// What HTTP/3 sees of a flush.
pub open spec fn after_flush<E>(flushed: Polled<(), E>) -> Polled<(), StreamClosed> {
    match flushed {
        Polled::Pending => Polled::Pending,
        Polled::Ready(()) => Polled::Ready(()),
        Polled::Failed(_) => Polled::Failed(closed_stream()),
    }
}

/// Turns the outcome of a flush into that of finishing a stream whose data was written.
pub fn finished<E>(flushed: Polled<(), E>) -> (r: Polled<(), StreamClosed>)
    ensures
        r == after_flush(flushed),
{
    match flushed {
        Polled::Pending => Polled::Pending,
        Polled::Ready(()) => Polled::Ready(()),
        Polled::Failed(_) => Polled::Failed(stream_error()),
    }
}

/// The sending half of a stream.
pub struct H3SendStream<S> {
    /// The transport's stream.
    pub inner: S,
    /// What is still to be written to it.
    pub buf: SendBuffer,
}

impl<S> H3SendStream<S> {
    /// Wraps a stream of the transport, with nothing to be written.
    pub fn new(inner: S) -> (r: Self)
        ensures
            r.inner == inner,
            r.buf@ == Seq::<u8>::empty(),
    {
        H3SendStream { inner, buf: SendBuffer::new() }
    }

    /// Takes data over, to be sent behind what is there.
    pub fn send_data(&mut self, data: Bytes)
        ensures
            final(self).inner == old(self).inner,
            final(self).buf@ == old(self).buf@ + bytes_of(data),
    {
        self.buf.send_data(data)
    }

    /// The stream's id in HTTP/3, given that of the transport.
    pub fn send_id(stream_id: u64) -> (r: u64)
        ensures
            r == id_or_zero(stream_id),
    {
        stream_id_or_zero(stream_id)
    }
}

/// A stream with both halves.
pub struct H3BidiStream<S> {
    /// The transport's stream.
    pub inner: S,
    /// What is still to be written to it.
    pub send_buf: SendBuffer,
}

impl<S> H3BidiStream<S> {
    /// Wraps a stream of the transport, with nothing to be written.
    pub fn new(inner: S) -> (r: Self)
        ensures
            r.inner == inner,
            r.send_buf@ == Seq::<u8>::empty(),
    {
        H3BidiStream { inner, send_buf: SendBuffer::new() }
    }

    /// Takes data over, to be sent behind what is there.
    pub fn send_data(&mut self, data: Bytes)
        ensures
            final(self).inner == old(self).inner,
            final(self).send_buf@ == old(self).send_buf@ + bytes_of(data),
    {
        self.send_buf.send_data(data)
    }

    /// Polls for data, as [`H3RecvStream::poll_data`] does.
    pub fn poll_data<E, F: FnOnce(Vec<u8>) -> (Vec<u8>, Polled<usize, E>)>(read: F) -> (r: Polled<
        Option<Bytes>,
        StreamClosed,
    >)
        requires
            forall|buffer: Vec<u8>|
                buffer@ == Seq::new(READ_SIZE as nat, |i: int| 0u8) ==> #[trigger] read.requires(
                    (buffer,),
                ),
        ensures
            exists|buffer: Vec<u8>, outcome: (Vec<u8>, Polled<usize, E>)|
                {
                    &&& buffer@ == Seq::new(READ_SIZE as nat, |i: int| 0u8)
                    &&& #[trigger] read.ensures((buffer,), outcome)
                    &&& read_view(r) == data_of_read(outcome.0@, outcome.1)
                },
    {
        H3RecvStream::<S>::poll_data(read)
    }

    /// The stream's id in HTTP/3, the same as that of the transport.
    pub fn recv_id(stream_id: u64) -> (r: u64)
        requires
            stream_id <= MAX_STREAM_ID,
        ensures
            r == stream_id,
    {
        valid_stream_id(stream_id).unwrap()
    }

    /// The stream's id in HTTP/3, the same as that of the transport.
    pub fn send_id(stream_id: u64) -> (r: u64)
        requires
            stream_id <= MAX_STREAM_ID,
        ensures
            r == stream_id,
    {
        valid_stream_id(stream_id).unwrap()
    }

    /// Parts the stream into its halves, as the transport parts its own. What was still to be
    /// written is dropped.
    pub fn split<A, B, F: FnOnce(S) -> (A, B)>(self, halves: F) -> (r: (
        H3SendStream<A>,
        H3RecvStream<B>,
    ))
        requires
            halves.requires((self.inner,)),
        ensures
            halves.ensures((self.inner,), (r.0.inner, r.1.inner)),
            r.0.buf@ == Seq::<u8>::empty(),
    {
        let (send, recv) = halves(self.inner);
        (H3SendStream::new(send), H3RecvStream::new(recv))
    }
}

/// What is handed over is sent behind what is there; what is to be written next is all that is
/// left; and the outcome of a write takes what was written off the front and nothing else.
pub proof fn law_buffer_is_a_queue<E>(
    buffer: &mut SendBuffer,
    data: Bytes,
    written: Polled<usize, E>,
    r: Option<Polled<(), StreamClosed>>,
)
    ensures
        call_ensures(SendBuffer::send_data, (buffer, data), ()) ==> final(buffer)@ == old(buffer)@
            + bytes_of(data),
        call_ensures(SendBuffer::wrote::<E>, (buffer, written), r) ==> match written {
            Polled::Ready(count) => count <= old(buffer)@.len() ==> {
                &&& old(buffer)@ == old(buffer)@.take(count as int) + final(buffer)@
                &&& r is None <==> final(buffer)@.len() > 0
                &&& r matches Some(end) ==> end is Ready
            },
            Polled::Pending => final(buffer)@ == old(buffer)@ && (r matches Some(end) && end
                is Pending),
            Polled::Failed(_) => final(buffer)@ == old(buffer)@ && (r matches Some(
                Polled::Failed(error),
            ) && error.connection_error.error_code == 0x100),
        },
{
    if let Polled::Ready(count) = written {
        if count <= old(buffer)@.len() {
            assert(old(buffer)@ =~= old(buffer)@.take(count as int) + old(buffer)@.skip(
                count as int,
            ));
        }
    }
}

/// A stream is finished only once all is written and the transport has flushed: what is left
/// otherwise is an end of what was left before. Every failure has the code of a connection
/// that was closed without an error.
pub proof fn law_finished_means_written_and_flushed<
    E,
    F: FnMut(&[u8]) -> Polled<usize, E>,
    G: FnOnce() -> Polled<(), E>,
>(buffer: &mut SendBuffer, write: F, flush: G, r: Polled<(), StreamClosed>)
    requires
        call_ensures(SendBuffer::poll_finish::<E, F, G>, (buffer, write, flush), r),
    ensures
        final(buffer)@.len() <= old(buffer)@.len(),
        final(buffer)@ == old(buffer)@.skip(old(buffer)@.len() - final(buffer)@.len()),
        r is Ready ==> final(buffer)@.len() == 0 && exists|flushed: Polled<(), E>|
            #[trigger] flush.ensures((), flushed) && flushed is Ready,
        final(buffer)@.len() == 0 ==> exists|flushed: Polled<(), E>|
            {
                &&& #[trigger] flush.ensures((), flushed)
                &&& flushed is Ready <==> r is Ready
                &&& flushed is Pending <==> r is Pending
            },
        r matches Polled::Failed(error) ==> error.connection_error.error_code == 0x100,
{
    let (outcomes, ready) = choose|
        outcomes: Seq<Polled<usize, E>>,
        ready: Polled<(), StreamClosed>,
    |
        {
            &&& #[trigger] drains(write, old(buffer)@, outcomes, final(buffer)@, ready)
            &&& match ready {
                Polled::Ready(()) => exists|flushed: Polled<(), E>|
                    #[trigger] flush.ensures((), flushed) && r == after_flush(flushed),
                _ => r == ready,
            }
        };
    law_ready_means_written(write, old(buffer)@, outcomes, final(buffer)@, ready);
    if outcomes.len() > 0 {
        law_polling_ends_as_last_write(write, old(buffer)@, outcomes, final(buffer)@, ready, 0);
    }
    if let Polled::Ready(()) = ready {
        let flushed = choose|flushed: Polled<(), E>|
            #[trigger] flush.ensures((), flushed) && r == after_flush(flushed);
        assert(flush.ensures((), flushed));
    }
}

/// Polling for data hands on what the transport read into a fresh buffer: as many bytes as it
/// read, and these.
pub proof fn law_poll_hands_on_what_was_read<
    S,
    E,
    F: FnOnce(Vec<u8>) -> (Vec<u8>, Polled<usize, E>),
>(read: F, r: Polled<Option<Bytes>, StreamClosed>)
    requires
        call_ensures(H3RecvStream::<S>::poll_data::<E, F>, (read,), r) || call_ensures(
            H3BidiStream::<S>::poll_data::<E, F>,
            (read,),
            r,
        ),
    ensures
        exists|buffer: Vec<u8>, filled: Vec<u8>, outcome: Polled<usize, E>|
            {
                &&& buffer@.len() == 4096
                &&& #[trigger] read.ensures((buffer,), (filled, outcome))
                &&& outcome is Pending <==> r is Pending
                &&& outcome is Failed <==> r is Failed
                &&& outcome matches Polled::Ready(count) ==> {
                    &&& count == 0 ==> (r matches Polled::Ready(None))
                    &&& 0 < count <= filled@.len() ==> (r matches Polled::Ready(Some(data))
                        && bytes_of(data) == filled@.subrange(0, count as int))
                }
            },
{
    let (buffer, outcome) = choose|buffer: Vec<u8>, outcome: (Vec<u8>, Polled<usize, E>)|
        {
            &&& buffer@ == Seq::new(READ_SIZE as nat, |i: int| 0u8)
            &&& #[trigger] read.ensures((buffer,), outcome)
            &&& read_view(r) == data_of_read(outcome.0@, outcome.1)
        };
    assert(outcome == (outcome.0, outcome.1));
    assert(read.ensures((buffer,), (outcome.0, outcome.1)));
    if let Polled::Ready(count) = outcome.1 {
        let filled = outcome.0@;
        if 0 < count <= filled.len() {
            assert(filled.subrange(0, count as int) =~= filled.take(count as int));
            if count == filled.len() {
                assert(filled.take(count as int) =~= filled);
            }
        }
    }
}

} // verus!
