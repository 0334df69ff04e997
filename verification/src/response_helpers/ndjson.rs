//! NDJSON (newline-delimited JSON): an incremental parser for a response body.

use std::collections::VecDeque;

use bytes::Bytes;
use serde_json::Value;
use vstd::prelude::*;

use crate::body::{body_data, body_ending, BodyPoll, Ending, StreamStep};
use crate::buf::bytes_of;
use crate::json::{json_read, parse_json};
use crate::lines::{
    complete_lines, law_lines_across_frames, law_lines_hold_no_newline,
    law_terminated_lines_read_back, law_unterminated_stream, lines_of, partial_line, terminated,
    LineBuffer, NEWLINE,
};

verus! {

/// What an [`NdjsonStream`] holds.
#[verifier::ext_equal]
pub struct NdjsonView<I> {
    /// Bytes of the line that no `\n` has ended yet.
    pub partial: Seq<u8>,
    /// Items that have not been handed out, oldest first.
    pub queue: Seq<I>,
}

impl<I> NdjsonView<I> {
    /// A parser that has seen nothing.
    pub open spec fn initial() -> NdjsonView<I> {
        NdjsonView { partial: Seq::empty(), queue: Seq::empty() }
    }

    /// The parser after its oldest item has been handed out.
    pub open spec fn popped(self) -> NdjsonView<I> {
        NdjsonView { queue: self.queue.drop_first(), ..self }
    }

    /// The parser after all its items have been handed out.
    pub open spec fn drained(self) -> NdjsonView<I> {
        NdjsonView { queue: Seq::empty(), ..self }
    }
}

/// `item` is what `decode` may make of the bytes `line`.
pub open spec fn decodes_to<I, F: Fn(&[u8]) -> I>(decode: F, line: Seq<u8>, item: I) -> bool {
    exists|raw: &[u8]| raw@ == line && #[trigger] decode.ensures((raw,), item)
}

/// `next` is the parser `state` after a data frame: its queue has grown by one item for
/// each line that the frame completes, decoded in order.
pub open spec fn fed<I, F: Fn(&[u8]) -> I>(
    state: NdjsonView<I>,
    data: Seq<u8>,
    decode: F,
    next: NdjsonView<I>,
) -> bool {
    let lines = complete_lines(state.partial + data);
    let old_len = state.queue.len();
    &&& next.partial == partial_line(state.partial + data)
    &&& next.queue.len() == old_len + lines.len()
    &&& forall|i: int| 0 <= i < old_len ==> next.queue[i] == #[trigger] state.queue[i]
    &&& forall|i: int|
        0 <= i < lines.len() ==> decodes_to(decode, #[trigger] lines[i], next.queue[old_len + i])
}

/// Whether `line` is one of the lines that the outcome of polling the body completes.
pub open spec fn completes<I, E>(
    state: NdjsonView<I>,
    polled: BodyPoll<E>,
    line: Seq<u8>,
) -> bool {
    polled matches BodyPoll::Data(frame) && complete_lines(
        state.partial + bytes_of(frame),
    ).contains(line)
}

/// `next` and `answer` are what becomes of the parser `state` once the body has been polled.
pub open spec fn stepped<I, E, F: Fn(&[u8]) -> I>(
    state: NdjsonView<I>,
    polled: BodyPoll<E>,
    decode: F,
    next: NdjsonView<I>,
    answer: StreamStep<I, E>,
) -> bool {
    match polled {
        BodyPoll::Data(frame) => match answer {
            StreamStep::Item(item) => exists|full: NdjsonView<I>|
                {
                    &&& #[trigger] fed(state, bytes_of(frame), decode, full)
                    &&& full.queue.len() > 0
                    &&& item == full.queue.first()
                    &&& next == full.popped()
                },
            StreamStep::Wake => fed(state, bytes_of(frame), decode, next) && next.queue.len() == 0,
            _ => false,
        },
        BodyPoll::Trailers => next == state && answer == StreamStep::<I, E>::Wake,
        BodyPoll::Failed(error) => next == state && answer == StreamStep::<I, E>::Failed(error),
        BodyPoll::End => next == state && answer == StreamStep::<I, E>::End,
        BodyPoll::Pending => next == state && answer == StreamStep::<I, E>::Pending,
    }
}

/// Frame boundaries do not matter: a frame cut in two has an effect that the whole can have.
pub proof fn law_fed_across_frames<I, F: Fn(&[u8]) -> I>(
    state: NdjsonView<I>,
    head: Seq<u8>,
    tail: Seq<u8>,
    decode: F,
    middle: NdjsonView<I>,
    next: NdjsonView<I>,
)
    requires
        !state.partial.contains(NEWLINE),
        fed(state, head, decode, middle),
        fed(middle, tail, decode, next),
    ensures
        fed(state, head + tail, decode, next),
{
    let whole = state.partial + head;
    let first = complete_lines(whole);
    let second = complete_lines(middle.partial + tail);
    let lines = complete_lines(state.partial + (head + tail));
    assert(state.partial + (head + tail) =~= whole + tail);
    law_lines_across_frames(whole, tail);
    assert(lines == first + second);
    let old_len = state.queue.len();
    assert forall|i: int| 0 <= i < old_len implies next.queue[i] == #[trigger] state.queue[i] by {
        assert(next.queue[i] == middle.queue[i]);
    }
    assert forall|i: int| 0 <= i < lines.len() implies decodes_to(
        decode,
        #[trigger] lines[i],
        next.queue[old_len + i],
    ) by {
        if i < first.len() {
            assert(lines[i] == first[i]);
            assert(next.queue[old_len + i] == middle.queue[old_len + i]);
        } else {
            let k = i - first.len();
            assert(lines[i] == second[k]);
            assert(next.queue[middle.queue.len() + k] == next.queue[old_len + i]);
        }
    }
}

/// Where a frame ends makes no difference: where a decoder makes one thing of each line, two
/// parsers in the same state, one of which takes as one frame what the other takes as two,
/// hold the same items in the same order and the same unfinished line.
pub proof fn law_frame_ends_do_not_matter<I, F: Fn(&[u8]) -> I>(
    state: NdjsonView<I>,
    head: Seq<u8>,
    tail: Seq<u8>,
    decode: F,
    middle: NdjsonView<I>,
    in_two: NdjsonView<I>,
    in_one: NdjsonView<I>,
)
    requires
        !state.partial.contains(NEWLINE),
        forall|line: Seq<u8>, one: I, other: I| #[trigger]
            decodes_to(decode, line, one) && #[trigger] decodes_to(decode, line, other) ==> one
                == other,
        fed(state, head, decode, middle),
        fed(middle, tail, decode, in_two),
        fed(state, head + tail, decode, in_one),
    ensures
        in_one == in_two,
{
    law_fed_across_frames(state, head, tail, decode, middle, in_two);
    let lines = complete_lines(state.partial + (head + tail));
    let old_len = state.queue.len();
    assert forall|i: int| 0 <= i < in_one.queue.len() implies in_one.queue[i]
        == in_two.queue[i] by {
        if i < old_len {
            assert(in_one.queue[i] == state.queue[i]);
        } else {
            assert(decodes_to(decode, lines[i - old_len], in_one.queue[old_len + (i - old_len)]));
            assert(decodes_to(decode, lines[i - old_len], in_two.queue[old_len + (i - old_len)]));
        }
    }
    assert(in_one.queue =~= in_two.queue);
}

/// Whether `items` are all the items that come out when the stream is polled over and over:
/// while one is left it is handed out, else the body is polled, with these outcomes.
pub open spec fn runs<I, E, F: Fn(&[u8]) -> I>(
    state: NdjsonView<I>,
    polls: Seq<BodyPoll<E>>,
    decode: F,
    items: Seq<I>,
) -> bool
    decreases polls.len(), state.queue.len(),
{
    if state.queue.len() > 0 {
        &&& items.len() > 0
        &&& items.first() == state.queue.first()
        &&& runs(state.popped(), polls, decode, items.drop_first())
    } else if polls.len() == 0 {
        items.len() == 0
    } else {
        exists|next: NdjsonView<I>, answer: StreamStep<I, E>|
            {
                &&& #[trigger] stepped(state, polls.first(), decode, next, answer)
                &&& match answer {
                    StreamStep::Item(item) => items.len() > 0 && items.first() == item && runs(
                        next,
                        polls.drop_first(),
                        decode,
                        items.drop_first(),
                    ),
                    StreamStep::Wake | StreamStep::Pending => runs(
                        next,
                        polls.drop_first(),
                        decode,
                        items,
                    ),
                    StreamStep::Failed(_) | StreamStep::End => items.len() == 0,
                }
            }
    }
}

/// What an answer hands out, followed by what is still queued.
pub open spec fn handed_and_queued<I, E>(answer: StreamStep<I, E>, next: NdjsonView<I>) -> Seq<I> {
    match answer {
        StreamStep::Item(item) => seq![item] + next.queue,
        _ => next.queue,
    }
}

/// An item is what the decoder made of its line, of all its bytes and of no others.
pub proof fn law_item_is_decoded<I, F: Fn(&[u8]) -> I>(decode: F, line: Seq<u8>, item: I)
    requires
        decodes_to(decode, line, item),
    ensures
        exists|raw: &[u8]|
            {
                &&& #[trigger] decode.ensures((raw,), item)
                &&& raw@.len() == line.len()
                &&& forall|i: int| 0 <= i < line.len() ==> #[trigger] raw@[i] == line[i]
            },
{
}

/// A failure and the end are answered as they come and change nothing, nor does a poll
/// without data.
pub proof fn law_each_poll_is_answered<I, E, F: Fn(&[u8]) -> I>(
    state: NdjsonView<I>,
    polled: BodyPoll<E>,
    decode: F,
    next: NdjsonView<I>,
    answer: StreamStep<I, E>,
)
    requires
        stepped(state, polled, decode, next, answer),
    ensures
        polled matches BodyPoll::Failed(error) ==> answer == StreamStep::<I, E>::Failed(error),
        answer is Failed ==> polled is Failed,
        polled is End <==> answer is End,
        polled is Pending <==> answer is Pending,
        polled is Trailers ==> answer is Wake,
        polled is Data ==> answer is Item || answer is Wake,
        !(polled is Data) ==> next == state,
{
}

/// A data frame gives one item for each line that it completes, in order, whatever the length
/// of the lines and wherever the frame ends, behind the items that were queued: the oldest
/// item is handed out if there is one, and what no `\n` ends is kept.
pub proof fn law_frame_gives_its_lines<I, E, F: Fn(&[u8]) -> I>(
    state: NdjsonView<I>,
    frame: Bytes,
    decode: F,
    next: NdjsonView<I>,
    answer: StreamStep<I, E>,
    lines: Seq<Seq<u8>>,
    rest: Seq<u8>,
)
    requires
        stepped(state, BodyPoll::Data(frame), decode, next, answer),
        forall|i: int| 0 <= i < lines.len() ==> !(#[trigger] lines[i]).contains(NEWLINE),
        !rest.contains(NEWLINE),
        state.partial + bytes_of(frame) == terminated(lines) + rest,
    ensures
        next.partial == rest,
        answer is Item <==> state.queue.len() + lines.len() > 0,
        handed_and_queued(answer, next).len() == state.queue.len() + lines.len(),
        forall|i: int|
            0 <= i < state.queue.len() ==> handed_and_queued(answer, next)[i]
                == #[trigger] state.queue[i],
        forall|i: int|
            0 <= i < lines.len() ==> decodes_to(
                decode,
                #[trigger] lines[i],
                handed_and_queued(answer, next)[state.queue.len() + i],
            ),
{
    law_terminated_lines_read_back(lines);
    law_lines_across_frames(terminated(lines), rest);
    assert(Seq::<u8>::empty() + rest =~= rest);
    law_unterminated_stream(rest);
    assert(complete_lines(state.partial + bytes_of(frame)) =~= lines);
    match answer {
        StreamStep::Item(item) => {
            let full = choose|full: NdjsonView<I>|
                {
                    &&& #[trigger] fed(state, bytes_of(frame), decode, full)
                    &&& full.queue.len() > 0
                    &&& item == full.queue.first()
                    &&& next == full.popped()
                };
            assert(handed_and_queued(answer, next) =~= full.queue);
        },
        _ => {
            assert(handed_and_queued(answer, next) =~= next.queue);
        },
    }
}

/// Whether the stream is over in this way when it is polled over and over: while an item is
/// left it is handed out, else the body is polled, with these outcomes.
pub open spec fn ends<I, E, F: Fn(&[u8]) -> I>(
    state: NdjsonView<I>,
    polls: Seq<BodyPoll<E>>,
    decode: F,
    ending: Option<Ending<E>>,
) -> bool
    decreases polls.len(), state.queue.len(),
{
    if state.queue.len() > 0 {
        ends(state.popped(), polls, decode, ending)
    } else if polls.len() == 0 {
        ending is None
    } else {
        exists|next: NdjsonView<I>, answer: StreamStep<I, E>|
            {
                &&& #[trigger] stepped(state, polls.first(), decode, next, answer)
                &&& match answer {
                    StreamStep::Item(_) | StreamStep::Wake | StreamStep::Pending => ends(
                        next,
                        polls.drop_first(),
                        decode,
                        ending,
                    ),
                    StreamStep::Failed(error) => ending == Some(Ending::Failed(error)),
                    StreamStep::End => ending == Some(Ending::<E>::End),
                }
            }
    }
}

/// The stream ends as the body does: with the body's own error where the body fails, with the
/// end exactly where the body comes to its end, and not before. All items of the bytes that
/// came before have been handed out by then: see [`law_items_of_body`].
pub proof fn law_stream_ends_as_body<I, E, F: Fn(&[u8]) -> I>(
    state: NdjsonView<I>,
    polls: Seq<BodyPoll<E>>,
    decode: F,
    ending: Option<Ending<E>>,
)
    requires
        ends(state, polls, decode, ending),
    ensures
        ending == body_ending(polls),
    decreases polls.len(), state.queue.len(),
{
    if state.queue.len() > 0 {
        law_stream_ends_as_body(state.popped(), polls, decode, ending);
    } else if polls.len() > 0 {
        let (next, answer) = choose|next: NdjsonView<I>, answer: StreamStep<I, E>|
            {
                &&& #[trigger] stepped(state, polls.first(), decode, next, answer)
                &&& match answer {
                    StreamStep::Item(_) | StreamStep::Wake | StreamStep::Pending => ends(
                        next,
                        polls.drop_first(),
                        decode,
                        ending,
                    ),
                    StreamStep::Failed(error) => ending == Some(Ending::Failed(error)),
                    StreamStep::End => ending == Some(Ending::<E>::End),
                }
            };
        law_each_poll_is_answered(state, polls.first(), decode, next, answer);
        if answer is Item || answer is Wake || answer is Pending {
            law_stream_ends_as_body(next, polls.drop_first(), decode, ending);
        }
    }
}

/// The parser with an item before those that it has queued.
spec fn with_first<I>(item: I, state: NdjsonView<I>) -> NdjsonView<I> {
    NdjsonView { queue: seq![item] + state.queue, ..state }
}

/// An item that is handed out early does not change what a frame does.
proof fn lemma_fed_behind_first<I, F: Fn(&[u8]) -> I>(
    state: NdjsonView<I>,
    data: Seq<u8>,
    decode: F,
    next: NdjsonView<I>,
)
    requires
        state.queue.len() > 0,
        fed(state.popped(), data, decode, next),
    ensures
        fed(state, data, decode, with_first(state.queue.first(), next)),
{
    let whole = with_first(state.queue.first(), next);
    let lines = complete_lines(state.partial + data);
    assert forall|i: int| 0 <= i < state.queue.len() implies whole.queue[i]
        == #[trigger] state.queue[i] by {
        if i > 0 {
            assert(state.popped().queue[i - 1] == state.queue[i]);
        }
    }
    assert forall|i: int| 0 <= i < lines.len() implies decodes_to(
        decode,
        #[trigger] lines[i],
        whole.queue[state.queue.len() + i],
    ) by {
        assert(whole.queue[state.queue.len() + i] == next.queue[state.popped().queue.len() + i]);
    }
}

/// Nothing comes of no data.
proof fn lemma_fed_nothing<I, F: Fn(&[u8]) -> I>(state: NdjsonView<I>, decode: F)
    requires
        !state.partial.contains(NEWLINE),
    ensures
        fed(state, Seq::empty(), decode, state),
{
    assert(state.partial + Seq::<u8>::empty() =~= state.partial);
    law_unterminated_stream(state.partial);
}

/// The items that come out of a body depend on its bytes alone, not on how they are cut into
/// frames or when they arrive: they are those of the lines that the bytes hold, whatever
/// decodes them.
pub proof fn law_items_of_body<I, E, F: Fn(&[u8]) -> I>(
    state: NdjsonView<I>,
    polls: Seq<BodyPoll<E>>,
    decode: F,
    items: Seq<I>,
)
    requires
        !state.partial.contains(NEWLINE),
        runs(state, polls, decode, items),
    ensures
        exists|full: NdjsonView<I>| #[trigger]
            fed(state, body_data(polls), decode, full) && full.queue == items,
    decreases polls.len(), state.queue.len(),
{
    let data = body_data(polls);
    if state.queue.len() > 0 {
        let after_first = items.drop_first();
        law_items_of_body(state.popped(), polls, decode, after_first);
        let next = choose|full: NdjsonView<I>| #[trigger]
            fed(state.popped(), data, decode, full) && full.queue == after_first;
        lemma_fed_behind_first(state, data, decode, next);
        assert(with_first(state.queue.first(), next).queue =~= items);
    } else if polls.len() == 0 {
        lemma_fed_nothing(state, decode);
        assert(state.queue =~= items);
    } else {
        let rest = polls.drop_first();
        let (next, answer) = choose|next: NdjsonView<I>, answer: StreamStep<I, E>|
            {
                &&& #[trigger] stepped(state, polls.first(), decode, next, answer)
                &&& match answer {
                    StreamStep::Item(item) => items.len() > 0 && items.first() == item && runs(
                        next,
                        polls.drop_first(),
                        decode,
                        items.drop_first(),
                    ),
                    StreamStep::Wake | StreamStep::Pending => runs(
                        next,
                        polls.drop_first(),
                        decode,
                        items,
                    ),
                    StreamStep::Failed(_) | StreamStep::End => items.len() == 0,
                }
            };
        match polls.first() {
            BodyPoll::Data(frame) => {
                let part = bytes_of(frame);
                law_lines_hold_no_newline(state.partial + part);
                match answer {
                    StreamStep::Item(item) => {
                        let filled = choose|full: NdjsonView<I>|
                            {
                                &&& #[trigger] fed(state, part, decode, full)
                                &&& full.queue.len() > 0
                                &&& item == full.queue.first()
                                &&& next == full.popped()
                            };
                        let after_first = items.drop_first();
                        law_items_of_body(next, rest, decode, after_first);
                        let last = choose|full: NdjsonView<I>| #[trigger]
                            fed(next, body_data(rest), decode, full) && full.queue == after_first;
                        lemma_fed_behind_first(filled, body_data(rest), decode, last);
                        let whole = with_first(item, last);
                        law_fed_across_frames(state, part, body_data(rest), decode, filled, whole);
                        assert(whole.queue =~= items);
                    },
                    _ => {
                        law_items_of_body(next, rest, decode, items);
                        let last = choose|full: NdjsonView<I>| #[trigger]
                            fed(next, body_data(rest), decode, full) && full.queue == items;
                        law_fed_across_frames(state, part, body_data(rest), decode, next, last);
                    },
                }
            },
            BodyPoll::Trailers | BodyPoll::Pending => {
                law_items_of_body(state, rest, decode, items);
            },
            BodyPoll::Failed(_) | BodyPoll::End => {
                lemma_fed_nothing(state, decode);
                assert(state.queue =~= items);
            },
        }
    }
}

/// Reading undoes writing: a body that holds texts, each followed by a `\n` and none with a
/// `\n` in it, gives what these texts decode to, in order, and nothing else, however it is cut
/// into frames.
pub proof fn law_items_read_back<I, E, F: Fn(&[u8]) -> I>(
    texts: Seq<Seq<u8>>,
    wanted: Seq<I>,
    decode: F,
    polls: Seq<BodyPoll<E>>,
    items: Seq<I>,
)
    requires
        texts.len() == wanted.len(),
        forall|i: int| 0 <= i < texts.len() ==> !(#[trigger] texts[i]).contains(NEWLINE),
        forall|i: int, item: I|
            0 <= i < texts.len() && #[trigger] decodes_to(decode, texts[i], item) ==> item
                == wanted[i],
        body_data(polls) == terminated(texts),
        runs(NdjsonView::initial(), polls, decode, items),
    ensures
        items == wanted,
{
    let fresh = NdjsonView::<I>::initial();
    law_items_of_body(fresh, polls, decode, items);
    let full = choose|full: NdjsonView<I>| #[trigger]
        fed(fresh, body_data(polls), decode, full) && full.queue == items;
    law_terminated_lines_read_back(texts);
    assert(fresh.partial + terminated(texts) =~= terminated(texts));
    assert forall|i: int| 0 <= i < texts.len() implies items[i] == wanted[i] by {
        assert(decodes_to(decode, texts[i], full.queue[0 + i]));
    }
    assert(items =~= wanted);
}

/// A streaming NDJSON parser.
///
/// It puts `\n`-terminated lines together, whatever the frame boundaries, and decodes each
/// line into an item.
pub struct NdjsonStream<T, E> {
    /// Bytes that no `\n` has ended yet.
    buffer: LineBuffer,
    /// Decoded items, oldest first.
    queue: VecDeque<Result<T, E>>,
}

impl<T, E> View for NdjsonStream<T, E> {
    type V = NdjsonView<Result<T, E>>;

    closed spec fn view(&self) -> NdjsonView<Result<T, E>> {
        NdjsonView { partial: self.buffer@, queue: self.queue@ }
    }
}

impl<T, E> NdjsonStream<T, E> {
    /// The buffered bytes are one unfinished line.
    pub open spec fn well_formed(&self) -> bool {
        !self@.partial.contains(NEWLINE)
    }

    /// Creates a parser that has seen nothing.
    pub fn new() -> (r: Self)
        ensures
            r@ == NdjsonView::<Result<T, E>>::initial(),
            r.well_formed(),
    {
        NdjsonStream { buffer: LineBuffer::new(), queue: VecDeque::with_capacity(16) }
    }

    /// Takes the bytes of a data frame: every line that it completes is decoded and queued,
    /// what follows the last `\n` is kept for the next frame.
    pub fn append_frame<F: Fn(&[u8]) -> Result<T, E>>(&mut self, frame: Bytes, decode: F)
        requires
            old(self).well_formed(),
            forall|line: &[u8]|
                complete_lines(old(self)@.partial + bytes_of(frame)).contains(line@)
                    ==> #[trigger] decode.requires((line,)),
        ensures
            fed(old(self)@, bytes_of(frame), decode, final(self)@),
            final(self).well_formed(),
    {
        let ghost old_queue = self.queue@;
        let lines = self.buffer.append(frame);
        let ghost raw = lines_of(lines@);
        let count: usize = lines.len();
        let mut at: usize = 0;
        while at < count
            invariant
                at <= count == lines@.len(),
                raw == lines_of(lines@),
                raw == complete_lines(old(self)@.partial + bytes_of(frame)),
                forall|line: &[u8]|
                    complete_lines(old(self)@.partial + bytes_of(frame)).contains(line@)
                        ==> #[trigger] decode.requires((line,)),
                self.buffer@ == partial_line(old(self)@.partial + bytes_of(frame)),
                self.queue@.len() == old_queue.len() + at,
                forall|i: int|
                    0 <= i < old_queue.len() ==> self.queue@[i] == #[trigger] old_queue[i],
                forall|i: int|
                    0 <= i < at ==> decodes_to(
                        decode,
                        #[trigger] raw[i],
                        self.queue@[old_queue.len() + i],
                    ),
            decreases count - at,
        {
            let ghost queue = self.queue@;
            let line = lines[at].as_slice();
            assert(raw[at as int] == line@);
            assert(raw.contains(line@));
            let item = decode(line);
            assert(decodes_to(decode, raw[at as int], item));
            self.queue.push_back(item);
            assert forall|i: int| 0 <= i < at + 1 implies decodes_to(
                decode,
                #[trigger] raw[i],
                self.queue@[old_queue.len() + i],
            ) by {
                if i < at {
                    assert(self.queue@[old_queue.len() + i] == queue[old_queue.len() + i]);
                }
            }
            at = at + 1;
        }
        proof {
            law_lines_hold_no_newline(old(self)@.partial + bytes_of(frame));
        }
    }

    /// Hands out the oldest item.
    fn pop_queue(&mut self) -> (r: Option<Result<T, E>>)
        ensures
            match r {
                Some(item) => {
                    &&& old(self)@.queue.len() > 0
                    &&& item == old(self)@.queue.first()
                    &&& final(self)@ == old(self)@.popped()
                },
                None => old(self)@.queue.len() == 0 && final(self)@ == old(self)@,
            },
    {
        let ghost queue = self.queue@;
        let r = self.queue.pop_front();
        assert(r is Some ==> self.queue@ =~= queue.drop_first());
        r
    }

    /// Decides what to answer once the body has been polled.
    pub fn take_frame<B, F: Fn(&[u8]) -> Result<T, E>>(&mut self, polled: BodyPoll<B>, decode: F) -> (r:
        StreamStep<Result<T, E>, B>)
        requires
            old(self).well_formed(),
            forall|line: &[u8]|
                completes(old(self)@, polled, line@) ==> #[trigger] decode.requires((line,)),
        ensures
            stepped(old(self)@, polled, decode, final(self)@, r),
            polled matches BodyPoll::Failed(error) ==> r == StreamStep::<Result<T, E>, B>::Failed(error),
            polled is End <==> r is End,
            polled is Pending <==> r is Pending,
            !(polled is Data) ==> final(self)@ == old(self)@,
            final(self).well_formed(),
    {
        match polled {
            BodyPoll::Data(frame) => {
                self.append_frame(frame, decode);
                match self.pop_queue() {
                    Some(item) => StreamStep::Item(item),
                    None => StreamStep::Wake,
                }
            },
            BodyPoll::Trailers => StreamStep::Wake,
            BodyPoll::Failed(error) => StreamStep::Failed(error),
            BodyPoll::End => StreamStep::End,
            BodyPoll::Pending => StreamStep::Pending,
        }
    }

    /// Polls for the next item. The body is polled only when no item is left.
    pub fn poll_next<B, P: FnOnce() -> BodyPoll<B>, F: Fn(&[u8]) -> Result<T, E>>(
        &mut self,
        poll_frame: P,
        decode: F,
    ) -> (r: StreamStep<Result<T, E>, B>)
        requires
            old(self).well_formed(),
            old(self)@.queue.len() == 0 ==> poll_frame.requires(()),
            forall|polled: BodyPoll<B>, line: &[u8]|
                old(self)@.queue.len() == 0 && #[trigger] poll_frame.ensures((), polled)
                    && completes(old(self)@, polled, line@) ==> #[trigger] decode.requires(
                    (line,),
                ),
        ensures
            old(self)@.queue.len() > 0 ==> {
                &&& r == StreamStep::<Result<T, E>, B>::Item(old(self)@.queue.first())
                &&& final(self)@ == old(self)@.popped()
            },
            old(self)@.queue.len() == 0 ==> exists|polled: BodyPoll<B>|
                {
                    &&& #[trigger] poll_frame.ensures((), polled)
                    &&& stepped(old(self)@, polled, decode, final(self)@, r)
                },
            final(self).well_formed(),
    {
        match self.pop_queue() {
            Some(item) => StreamStep::Item(item),
            None => {
                let polled = poll_frame();
                self.take_frame(polled, decode)
            },
        }
    }
}

/// What `serde_json` reads from each line: a document, or why it refuses the line.
pub open spec fn documents_of(lines: Seq<Seq<u8>>) -> Seq<Result<Value, serde_json::Error>> {
    lines.map_values(|line: Seq<u8>| json_read(line))
}

impl NdjsonView<Result<Value, serde_json::Error>> {
    /// The effect of a data frame: one document, or error, for each line that it completes.
    pub open spec fn feed(self, data: Seq<u8>) -> Self {
        NdjsonView {
            partial: partial_line(self.partial + data),
            queue: self.queue + documents_of(complete_lines(self.partial + data)),
        }
    }

    /// The parser and the answer after the body has been polled.
    pub open spec fn step<B>(self, polled: BodyPoll<B>) -> (
        Self,
        StreamStep<Result<Value, serde_json::Error>, B>,
    ) {
        match polled {
            BodyPoll::Data(frame) => {
                let full = self.feed(bytes_of(frame));
                if full.queue.len() > 0 {
                    (full.popped(), StreamStep::Item(full.queue.first()))
                } else {
                    (full, StreamStep::Wake)
                }
            },
            BodyPoll::Trailers => (self, StreamStep::Wake),
            BodyPoll::Failed(error) => (self, StreamStep::Failed(error)),
            BodyPoll::End => (self, StreamStep::End),
            BodyPoll::Pending => (self, StreamStep::Pending),
        }
    }

    /// All documents that come out when the stream is polled over and over: while one is
    /// left it is handed out, else the body is polled, with these outcomes.
    pub open spec fn run<B>(self, polls: Seq<BodyPoll<B>>) -> Seq<
        Result<Value, serde_json::Error>,
    >
        decreases polls.len(), self.queue.len(),
    {
        if self.queue.len() > 0 {
            seq![self.queue.first()] + self.popped().run(polls)
        } else if polls.len() == 0 {
            Seq::empty()
        } else {
            let (next, answer) = self.step(polls.first());
            match answer {
                StreamStep::Item(item) => seq![item] + next.run(polls.drop_first()),
                StreamStep::Wake | StreamStep::Pending => next.run(polls.drop_first()),
                StreamStep::Failed(_) | StreamStep::End => Seq::empty(),
            }
        }
    }
}

impl NdjsonStream<Value, serde_json::Error> {
    /// Takes the bytes of a data frame: every line that it completes is read as a JSON
    /// document and queued, or its error is.
    pub fn append_json_frame(&mut self, frame: Bytes)
        requires
            old(self).well_formed(),
        ensures
            final(self)@ == old(self)@.feed(bytes_of(frame)),
            final(self).well_formed(),
    {
        self.append_frame(frame, parse_json);
        proof {
            let before = old(self)@;
            let lines = complete_lines(before.partial + bytes_of(frame));
            let target = before.queue + documents_of(lines);
            let now = self@.queue;
            assert forall|i: int| 0 <= i < now.len() implies now[i] == target[i] by {
                let old_len = before.queue.len();
                if i < old_len {
                    assert(self@.queue[i] == before.queue[i]);
                } else {
                    let k = i - old_len;
                    assert(decodes_to(parse_json, lines[k], self@.queue[old_len + k]));
                }
            }
            assert(now =~= target);
        }
    }

    /// Decides what to answer once the body has been polled.
    pub fn take_json_frame<B>(&mut self, polled: BodyPoll<B>) -> (r: StreamStep<
        Result<Value, serde_json::Error>,
        B,
    >)
        requires
            old(self).well_formed(),
        ensures
            (final(self)@, r) == old(self)@.step(polled),
            polled matches BodyPoll::Failed(error) ==> r == StreamStep::<
                Result<Value, serde_json::Error>,
                B,
            >::Failed(error),
            polled is End <==> r is End,
            polled is Pending <==> r is Pending,
            !(polled is Data) ==> final(self)@ == old(self)@,
            final(self).well_formed(),
    {
        match polled {
            BodyPoll::Data(frame) => {
                self.append_json_frame(frame);
                match self.pop_queue() {
                    Some(item) => StreamStep::Item(item),
                    None => StreamStep::Wake,
                }
            },
            BodyPoll::Trailers => StreamStep::Wake,
            BodyPoll::Failed(error) => StreamStep::Failed(error),
            BodyPoll::End => StreamStep::End,
            BodyPoll::Pending => StreamStep::Pending,
        }
    }

    /// Polls for the next document. The body is polled only when none is left.
    pub fn poll_next_json<B, P: FnOnce() -> BodyPoll<B>>(&mut self, poll_frame: P) -> (r:
        StreamStep<Result<Value, serde_json::Error>, B>)
        requires
            old(self).well_formed(),
            old(self)@.queue.len() == 0 ==> poll_frame.requires(()),
        ensures
            old(self)@.queue.len() > 0 ==> {
                &&& r == StreamStep::<Result<Value, serde_json::Error>, B>::Item(
                    old(self)@.queue.first(),
                )
                &&& final(self)@ == old(self)@.popped()
            },
            old(self)@.queue.len() == 0 ==> exists|polled: BodyPoll<B>|
                {
                    &&& poll_frame.ensures((), polled)
                    &&& (final(self)@, r) == #[trigger] old(self)@.step(polled)
                },
            final(self).well_formed(),
    {
        match self.pop_queue() {
            Some(item) => StreamStep::Item(item),
            None => {
                let polled = poll_frame();
                self.take_json_frame(polled)
            },
        }
    }
}

/// Frame boundaries do not matter: a frame cut in two has the effect of the whole.
pub proof fn law_feed_across_frames(
    state: NdjsonView<Result<Value, serde_json::Error>>,
    head: Seq<u8>,
    tail: Seq<u8>,
)
    requires
        !state.partial.contains(NEWLINE),
    ensures
        state.feed(head).feed(tail) == state.feed(head + tail),
{
    let whole = state.partial + head;
    assert(state.partial + (head + tail) =~= whole + tail);
    law_lines_across_frames(whole, tail);
    assert(state.feed(head).feed(tail).queue =~= state.feed(head + tail).queue);
}

impl NdjsonView<Result<Value, serde_json::Error>> {
    /// How the stream is over when it is polled over and over, the body with these outcomes.
    pub open spec fn ending<B>(self, polls: Seq<BodyPoll<B>>) -> Option<Ending<B>>
        decreases polls.len(), self.queue.len(),
    {
        if self.queue.len() > 0 {
            self.popped().ending(polls)
        } else if polls.len() == 0 {
            None
        } else {
            let (next, answer) = self.step(polls.first());
            match answer {
                StreamStep::Item(_) | StreamStep::Wake | StreamStep::Pending => next.ending(
                    polls.drop_first(),
                ),
                StreamStep::Failed(error) => Some(Ending::Failed(error)),
                StreamStep::End => Some(Ending::End),
            }
        }
    }
}

/// The stream of documents ends as the body does: with the body's own error where the body
/// fails, with the end exactly where the body comes to its end, and not before.
pub proof fn law_documents_end_as_body<B>(
    state: NdjsonView<Result<Value, serde_json::Error>>,
    polls: Seq<BodyPoll<B>>,
)
    ensures
        state.ending(polls) == body_ending(polls),
    decreases polls.len(), state.queue.len(),
{
    if state.queue.len() > 0 {
        law_documents_end_as_body(state.popped(), polls);
    } else if polls.len() > 0 {
        law_documents_end_as_body(state.step(polls.first()).0, polls.drop_first());
    }
}

/// A failure and the end are answered as they come and change nothing, nor does a poll
/// without data. A data frame gives what `serde_json` reads from each line that it completes,
/// a document or its error, in order, whatever the length of the lines and wherever the frame
/// ends.
pub proof fn law_each_json_poll_is_answered<B>(
    state: NdjsonView<Result<Value, serde_json::Error>>,
    error: B,
    frame: Bytes,
    lines: Seq<Seq<u8>>,
    rest: Seq<u8>,
)
    requires
        forall|i: int| 0 <= i < lines.len() ==> !(#[trigger] lines[i]).contains(NEWLINE),
        !rest.contains(NEWLINE),
        state.partial + bytes_of(frame) == terminated(lines) + rest,
    ensures
        state.step(BodyPoll::Failed(error)) == (
            state,
            StreamStep::<Result<Value, serde_json::Error>, B>::Failed(error),
        ),
        state.step(BodyPoll::<B>::End) == (
            state,
            StreamStep::<Result<Value, serde_json::Error>, B>::End,
        ),
        state.step(BodyPoll::<B>::Pending) == (
            state,
            StreamStep::<Result<Value, serde_json::Error>, B>::Pending,
        ),
        state.step(BodyPoll::<B>::Trailers) == (
            state,
            StreamStep::<Result<Value, serde_json::Error>, B>::Wake,
        ),
        ({
            let (next, answer) = state.step(BodyPoll::<B>::Data(frame));
            &&& next.partial == rest
            &&& answer is Item || answer is Wake
            &&& answer is Item <==> state.queue.len() + lines.len() > 0
            &&& handed_and_queued(answer, next) == state.queue + Seq::new(
                lines.len(),
                |i: int| json_read(lines[i]),
            )
        }),
{
    law_terminated_lines_read_back(lines);
    law_lines_across_frames(terminated(lines), rest);
    assert(Seq::<u8>::empty() + rest =~= rest);
    law_unterminated_stream(rest);
    assert(complete_lines(state.partial + bytes_of(frame)) =~= lines);
    let full = state.feed(bytes_of(frame));
    let (next, answer) = state.step(BodyPoll::<B>::Data(frame));
    assert(full.queue =~= state.queue + Seq::new(lines.len(), |i: int| json_read(lines[i])));
    assert(handed_and_queued(answer, next) =~= full.queue);
}

/// Polling hands out what is queued, whatever else the parser holds.
proof fn lemma_run_hands_out_queue<B>(
    state: NdjsonView<Result<Value, serde_json::Error>>,
    polls: Seq<BodyPoll<B>>,
)
    ensures
        state.run(polls) == state.queue + state.drained().run(polls),
    decreases state.queue.len(),
{
    if state.queue.len() > 0 {
        lemma_run_hands_out_queue(state.popped(), polls);
        assert(state.popped().drained() == state.drained());
        assert(seq![state.queue.first()] + state.queue.drop_first() =~= state.queue);
        assert(state.run(polls) =~= state.queue + state.drained().run(polls));
    } else {
        assert(state.queue =~= Seq::<Result<Value, serde_json::Error>>::empty());
        assert(state.drained() =~= state);
        assert(state.run(polls) =~= state.queue + state.run(polls));
    }
}

/// The documents that come out of a body depend on its bytes alone, not on how they are
/// cut into frames or when they arrive: they are those of the lines that the bytes hold.
pub proof fn law_documents_of_body<B>(
    state: NdjsonView<Result<Value, serde_json::Error>>,
    polls: Seq<BodyPoll<B>>,
)
    requires
        !state.partial.contains(NEWLINE),
    ensures
        state.run(polls) == state.feed(body_data(polls)).queue,
    decreases polls.len(),
{
    let data = body_data(polls);
    let calm = state.drained();
    lemma_run_hands_out_queue(state, polls);
    assert(calm.run(polls) == calm.feed(data).queue) by {
        let nothing = Seq::<u8>::empty();
        assert(calm.partial + nothing =~= calm.partial);
        law_unterminated_stream(calm.partial);
        assert(calm.feed(nothing) =~= calm);
        if polls.len() > 0 {
            let rest = polls.drop_first();
            match polls.first() {
                BodyPoll::Data(frame) => {
                    let full = calm.feed(bytes_of(frame));
                    law_lines_hold_no_newline(calm.partial + bytes_of(frame));
                    law_documents_of_body(full, rest);
                    law_feed_across_frames(calm, bytes_of(frame), body_data(rest));
                },
                BodyPoll::Trailers | BodyPoll::Pending => {
                    law_documents_of_body(calm, rest);
                },
                BodyPoll::Failed(_) | BodyPoll::End => {},
            }
        }
    }
    assert(state.queue + calm.feed(data).queue =~= state.feed(data).queue);
}

/// The stream answers as the body does: a failure with the body's own error, the end with the
/// end, both only then, and neither changes what the stream holds. While an item is left, the
/// oldest is handed out and nothing else changes.
pub proof fn law_stream_answers<T, E, B, P: FnOnce() -> BodyPoll<B>, F: Fn(&[u8]) -> Result<T, E>>(
    stream: &mut NdjsonStream<T, E>,
    poll_frame: P,
    decode: F,
    r: StreamStep<Result<T, E>, B>,
)
    requires
        call_ensures(
            NdjsonStream::<T, E>::poll_next::<B, P, F>,
            (stream, poll_frame, decode),
            r,
        ),
    ensures
        old(stream)@.queue.len() > 0 ==> {
            &&& r matches StreamStep::Item(item)
            &&& old(stream)@.queue == seq![item] + final(stream)@.queue
            &&& final(stream)@.partial == old(stream)@.partial
        },
        old(stream)@.queue.len() == 0 ==> exists|polled: BodyPoll<B>|
            {
                &&& #[trigger] poll_frame.ensures((), polled)
                &&& polled matches BodyPoll::Failed(error) ==> r == StreamStep::<
                    Result<T, E>,
                    B,
                >::Failed(error)
                &&& polled is End <==> r is End
                &&& polled is Pending <==> r is Pending
                &&& polled is Failed <==> r is Failed
                &&& !(polled is Data) ==> final(stream)@ == old(stream)@
                &&& stepped(old(stream)@, polled, decode, final(stream)@, r)
            },
{
    let held = old(stream)@;
    if held.queue.len() > 0 {
        assert(held.queue =~= seq![held.queue.first()] + held.queue.drop_first());
    } else {
        let polled = choose|polled: BodyPoll<B>|
            {
                &&& #[trigger] poll_frame.ensures((), polled)
                &&& stepped(held, polled, decode, final(stream)@, r)
            };
        law_each_poll_is_answered(held, polled, decode, final(stream)@, r);
        assert(poll_frame.ensures((), polled));
    }
}

/// As [`law_stream_answers`], for one outcome of polling the body.
pub proof fn law_frame_is_answered<T, E, B, F: Fn(&[u8]) -> Result<T, E>>(
    stream: &mut NdjsonStream<T, E>,
    polled: BodyPoll<B>,
    decode: F,
    r: StreamStep<Result<T, E>, B>,
)
    requires
        call_ensures(NdjsonStream::<T, E>::take_frame::<B, F>, (stream, polled, decode), r),
    ensures
        polled matches BodyPoll::Failed(error) ==> r == StreamStep::<Result<T, E>, B>::Failed(
            error,
        ),
        polled is Failed <==> r is Failed,
        polled is End <==> r is End,
        polled is Pending <==> r is Pending,
        !(polled is Data) ==> final(stream)@ == old(stream)@,
        stepped(old(stream)@, polled, decode, final(stream)@, r),
{
    law_each_poll_is_answered(old(stream)@, polled, decode, final(stream)@, r);
}

/// The stream of documents answers as the body does, as [`law_stream_answers`] has it.
pub proof fn law_document_stream_answers<B, P: FnOnce() -> BodyPoll<B>>(
    stream: &mut NdjsonStream<Value, serde_json::Error>,
    poll_frame: P,
    r: StreamStep<Result<Value, serde_json::Error>, B>,
)
    requires
        call_ensures(
            NdjsonStream::<Value, serde_json::Error>::poll_next_json::<B, P>,
            (stream, poll_frame),
            r,
        ),
    ensures
        old(stream)@.queue.len() > 0 ==> {
            &&& r matches StreamStep::Item(item)
            &&& old(stream)@.queue == seq![item] + final(stream)@.queue
            &&& final(stream)@.partial == old(stream)@.partial
        },
        old(stream)@.queue.len() == 0 ==> exists|polled: BodyPoll<B>|
            {
                &&& #[trigger] poll_frame.ensures((), polled)
                &&& polled matches BodyPoll::Failed(error) ==> r == StreamStep::<
                    Result<Value, serde_json::Error>,
                    B,
                >::Failed(error)
                &&& polled is End <==> r is End
                &&& polled is Pending <==> r is Pending
                &&& polled is Failed <==> r is Failed
                &&& !(polled is Data) ==> final(stream)@ == old(stream)@
                &&& (final(stream)@, r) == old(stream)@.step(polled)
            },
{
    let held = old(stream)@;
    if held.queue.len() > 0 {
        assert(held.queue =~= seq![held.queue.first()] + held.queue.drop_first());
    } else {
        let polled = choose|polled: BodyPoll<B>|
            {
                &&& poll_frame.ensures((), polled)
                &&& (final(stream)@, r) == #[trigger] held.step(polled)
            };
        assert(poll_frame.ensures((), polled));
    }
}

/// A stream begins with nothing: no bytes and no item.
pub proof fn law_stream_begins_empty<T, E>(r: NdjsonStream<T, E>)
    requires
        call_ensures(NdjsonStream::<T, E>::new, (), r),
    ensures
        r@.partial.len() == 0,
        r@.queue.len() == 0,
{
}

} // verus!
