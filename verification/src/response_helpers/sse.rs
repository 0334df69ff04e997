//! Server-Sent Events (SSE): an incremental parser that reads a response body as the SSE
//! standard has it.
//!
//! Lines end with `\n` or `\r\n`, and the stream may start with a byte order mark. An empty
//! line hands out the event under construction, if it has data. Any other line is a field,
//! `name: value`, where one space may follow the colon, or a comment.

use std::collections::VecDeque;

use bytes::Bytes;
use vstd::prelude::*;
use vstd::utf8::{decode_utf8, valid_utf8};

use crate::body::{body_data, body_ending, frame_bytes, BodyPoll, Ending, StreamStep};
use crate::buf::bytes_of;
use crate::lines::{
    complete_lines, law_lines_across_frames, law_lines_hold_no_newline,
    law_terminated_lines_read_back, lines_of, partial_line, terminated, LineBuffer, NEWLINE,
};
use crate::text::{
    after, before, decode_lossy, drop_first_if, drop_last_if, lossy_text, same_text, split_first,
    without_first, without_last,
};

verus! {

/// What an [`SseEvent`] holds.
#[verifier::ext_equal]
pub struct EventView {
    pub id: Option<Seq<char>>,
    pub event: Option<Seq<char>>,
    pub data: Seq<char>,
}

impl EventView {
    /// An event that no field has been given to.
    pub open spec fn blank() -> EventView {
        EventView { id: None, event: None, data: Seq::empty() }
    }
}

/// The text of a raw line: a byte order mark before the first line of the stream, where none
/// has `begun` it, and one `\r` at the end of a line are no part of it.
pub open spec fn text_of_line(begun: bool, raw: Seq<u8>) -> Seq<char> {
    let text = lossy_text(raw);
    without_last(
        if begun {
            text
        } else {
            without_first(text, '\u{feff}')
        },
        '\r',
    )
}

/// The id that a line gives: the value of an `id` field without a null character.
pub open spec fn id_in(line: Seq<char>) -> Option<Seq<char>> {
    let value = without_first(after(line, ':'), ' ');
    if line.len() > 0 && before(line, ':') == "id"@ && !value.contains('\0') {
        Some(value)
    } else {
        None
    }
}

/// The id that the last line to give one gives, or `earlier` where none does.
pub open spec fn last_id_in(lines: Seq<Seq<char>>, earlier: Option<Seq<char>>) -> Option<Seq<char>>
    decreases lines.len(),
{
    if lines.len() == 0 {
        earlier
    } else if id_in(lines.last()) is Some {
        id_in(lines.last())
    } else {
        last_id_in(lines.drop_last(), earlier)
    }
}

/// What an [`SseStream`] holds.
#[verifier::ext_equal]
pub struct SseView {
    /// Bytes of the line that no `\n` has ended yet.
    pub partial: Seq<u8>,
    /// The event under construction.
    pub pending: EventView,
    /// Whether the event under construction has a `data` line, be it an empty one.
    pub has_data: bool,
    /// Whether a line of the stream has been read, so that no byte order mark can follow.
    pub begun: bool,
    /// Finished events that have not been handed out, oldest first.
    pub ready: Seq<EventView>,
    /// The value of the last `id` field.
    pub last_id: Option<Seq<char>>,
}

impl SseView {
    /// A parser that has seen nothing.
    pub open spec fn initial() -> SseView {
        SseView {
            partial: Seq::empty(),
            pending: EventView::blank(),
            has_data: false,
            begun: false,
            ready: Seq::empty(),
            last_id: None,
        }
    }

    /// The effect of one line, given without what ends it.
    ///
    /// An empty line finishes the event under construction, which counts only if it has a
    /// `data` line. Any other line is a field: its name stands before the first `:`, its value
    /// behind it, without one leading space. `data` values are joined by `\n`, an empty one
    /// too; `id` and `event` replace what was there, but an `id` with a null character is
    /// ignored; every other field is ignored.
    pub open spec fn take_line(self, line: Seq<char>) -> SseView {
        let name = before(line, ':');
        let value = without_first(after(line, ':'), ' ');
        if line.len() == 0 {
            SseView {
                pending: EventView::blank(),
                has_data: false,
                ready: if self.has_data {
                    self.ready.push(self.pending)
                } else {
                    self.ready
                },
                ..self
            }
        } else if name == "data"@ {
            let data = if self.has_data {
                self.pending.data.push('\n') + value
            } else {
                value
            };
            SseView { pending: EventView { data, ..self.pending }, has_data: true, ..self }
        } else if name == "id"@ {
            if value.contains('\0') {
                self
            } else {
                SseView {
                    pending: EventView { id: Some(value), ..self.pending },
                    last_id: Some(value),
                    ..self
                }
            }
        } else if name == "event"@ {
            SseView { pending: EventView { event: Some(value), ..self.pending }, ..self }
        } else {
            self
        }
    }

    /// The effect of lines in order, each given without what ends it.
    pub open spec fn take_texts(self, lines: Seq<Seq<char>>) -> SseView
        decreases lines.len(),
    {
        if lines.len() == 0 {
            self
        } else {
            self.take_texts(lines.drop_last()).take_line(lines.last())
        }
    }

    /// The text of the next raw line.
    pub open spec fn line_text(self, raw: Seq<u8>) -> Seq<char> {
        text_of_line(self.begun, raw)
    }

    /// The texts of the next raw lines.
    pub open spec fn line_texts(self, lines: Seq<Seq<u8>>) -> Seq<Seq<char>> {
        Seq::new(lines.len(), |i: int| text_of_line(self.begun || i > 0, lines[i]))
    }

    /// The effect of data frames in order.
    pub open spec fn feed_all(self, frames: Seq<Seq<u8>>) -> SseView
        decreases frames.len(),
    {
        if frames.len() == 0 {
            self
        } else {
            self.feed_all(frames.drop_last()).feed(frames.last())
        }
    }

    /// The effect of one raw line.
    pub open spec fn take_raw_line(self, raw: Seq<u8>) -> SseView {
        SseView { begun: true, ..self.take_line(self.line_text(raw)) }
    }

    /// The effect of raw lines in order.
    pub open spec fn take_lines(self, lines: Seq<Seq<u8>>) -> SseView
        decreases lines.len(),
    {
        if lines.len() == 0 {
            self
        } else {
            self.take_lines(lines.drop_last()).take_raw_line(lines.last())
        }
    }

    /// The effect of a data frame: of the lines that it completes.
    pub open spec fn feed(self, data: Seq<u8>) -> SseView {
        SseView {
            partial: partial_line(self.partial + data),
            ..self.take_lines(complete_lines(self.partial + data))
        }
    }

    /// The parser after its oldest finished event has been handed out.
    pub open spec fn popped(self) -> SseView {
        SseView { ready: self.ready.drop_first(), ..self }
    }

    /// The parser after all its finished events have been handed out.
    pub open spec fn drained(self) -> SseView {
        SseView { ready: Seq::empty(), ..self }
    }

    /// The parser and the answer after the body has been polled.
    pub open spec fn step<E>(self, polled: BodyPoll<E>) -> (SseView, StreamStep<EventView, E>) {
        match polled {
            BodyPoll::Data(frame) => {
                let fed = self.feed(bytes_of(frame));
                if fed.ready.len() > 0 {
                    (fed.popped(), StreamStep::Item(fed.ready.first()))
                } else {
                    (fed, StreamStep::Wake)
                }
            },
            BodyPoll::Trailers => (self, StreamStep::Wake),
            BodyPoll::Failed(error) => (self, StreamStep::Failed(error)),
            BodyPoll::End => (self, StreamStep::End),
            BodyPoll::Pending => (self, StreamStep::Pending),
        }
    }

    /// All events that come out when the stream is polled over and over: while a finished
    /// event is left it is handed out, else the body is polled, with these outcomes.
    pub open spec fn run<E>(self, polls: Seq<BodyPoll<E>>) -> Seq<EventView>
        decreases polls.len(), self.ready.len(),
    {
        if self.ready.len() > 0 {
            seq![self.ready.first()] + self.popped().run(polls)
        } else if polls.len() == 0 {
            Seq::empty()
        } else {
            let (next, answer) = self.step(polls.first());
            match answer {
                StreamStep::Item(event) => seq![event] + next.run(polls.drop_first()),
                StreamStep::Wake | StreamStep::Pending => next.run(polls.drop_first()),
                StreamStep::Failed(_) | StreamStep::End => Seq::empty(),
            }
        }
    }
}

impl SseView {
    /// How the stream is over when it is polled over and over, the body with these outcomes.
    pub open spec fn ending<E>(self, polls: Seq<BodyPoll<E>>) -> Option<Ending<E>>
        decreases polls.len(), self.ready.len(),
    {
        if self.ready.len() > 0 {
            self.popped().ending(polls)
        } else if polls.len() == 0 {
            None
        } else {
            let (next, answer) = self.step(polls.first());
            match answer {
                StreamStep::Item(_) | StreamStep::Wake | StreamStep::Pending => next.ending(
                    polls.drop_first(),
                ),
                StreamStep::Failed(error) => Some(Ending::Failed(error)),
                StreamStep::End => Some(Ending::End),
            }
        }
    }
}

/// The stream ends as the body does: with the body's own error where the body fails, with the
/// end exactly where the body comes to its end, and not before.
pub proof fn law_stream_ends_as_body<E>(state: SseView, polls: Seq<BodyPoll<E>>)
    ensures
        state.ending(polls) == body_ending(polls),
    decreases polls.len(), state.ready.len(),
{
    if state.ready.len() > 0 {
        law_stream_ends_as_body(state.popped(), polls);
    } else if polls.len() > 0 {
        law_stream_ends_as_body(state.step(polls.first()).0, polls.drop_first());
    }
}

/// A failure and the end are answered as they come and change nothing, nor does a poll
/// without data; a frame is answered with an event exactly where it finishes one.
pub proof fn law_each_poll_is_answered<E>(state: SseView, error: E, frame: Bytes)
    ensures
        state.step(BodyPoll::Failed(error)) == (state, StreamStep::<EventView, E>::Failed(error)),
        state.step(BodyPoll::<E>::End) == (state, StreamStep::<EventView, E>::End),
        state.step(BodyPoll::<E>::Pending) == (state, StreamStep::<EventView, E>::Pending),
        state.step(BodyPoll::<E>::Trailers) == (state, StreamStep::<EventView, E>::Wake),
        ({
            let (next, answer) = state.step(BodyPoll::<E>::Data(frame));
            let fed = state.feed(bytes_of(frame));
            &&& next.partial == fed.partial && next.pending == fed.pending
            &&& next.has_data == fed.has_data && next.begun == fed.begun
            &&& next.last_id == fed.last_id
            &&& answer matches StreamStep::Item(event) ==> fed.ready == seq![event] + next.ready
            &&& !(answer is Item) ==> answer is Wake && fed.ready.len() == 0 && next.ready.len()
                == 0
        }),
{
    let fed = state.feed(bytes_of(frame));
    if fed.ready.len() > 0 {
        assert(fed.ready =~= seq![fed.ready.first()] + fed.ready.drop_first());
    }
}

/// Whether a line is a field of this name with this value: the name, a colon, at most one
/// space that is no part of the value, and the value; or the name alone, with no value.
pub open spec fn is_field(line: Seq<char>, name: Seq<char>, value: Seq<char>) -> bool {
    &&& line.len() > 0
    &&& !name.contains(':')
    &&& {
        ||| line == name && value.len() == 0
        ||| line == name.push(':') + (seq![' '] + value)
        ||| line == name.push(':') + value && (value.len() == 0 || value[0] != ' ')
    }
}

/// A line is a field of one name with one value.
pub proof fn law_line_is_one_field(line: Seq<char>, name: Seq<char>, value: Seq<char>)
    requires
        line.len() > 0,
    ensures
        is_field(line, name, value) <==> name == before(line, ':') && value == without_first(
            after(line, ':'),
            ' ',
        ),
{
    crate::text::law_parts_rebuild_text(line, ':');
    let head = before(line, ':');
    let tail = after(line, ':');
    let read = without_first(tail, ' ');
    if is_field(line, name, value) {
        if line == name && value.len() == 0 {
            crate::text::lemma_before_without(line, ':');
            assert(value =~= read);
        } else if line == name.push(':') + (seq![' '] + value) {
            crate::text::lemma_before_after(name, ':', seq![' '] + value);
            assert((seq![' '] + value).drop_first() =~= value);
        } else {
            crate::text::lemma_before_after(name, ':', value);
        }
    }
    if name == head && value == read {
        if line.contains(':') {
            if tail.len() > 0 && tail.first() == ' ' {
                assert(seq![' '] + tail.drop_first() =~= tail);
            }
        }
    }
}

/// The values of the fields of a name, in order.
pub open spec fn values_of(lines: Seq<Seq<char>>, name: Seq<char>) -> Seq<Seq<char>>
    decreases lines.len(),
{
    if lines.len() == 0 {
        Seq::empty()
    } else if exists|value: Seq<char>| is_field(lines.last(), name, value) {
        values_of(lines.drop_last(), name).push(
            choose|value: Seq<char>| is_field(lines.last(), name, value),
        )
    } else {
        values_of(lines.drop_last(), name)
    }
}

/// Values, each followed by a `\n`.
pub open spec fn each_ended(values: Seq<Seq<char>>) -> Seq<char>
    decreases values.len(),
{
    if values.len() == 0 {
        Seq::empty()
    } else {
        each_ended(values.drop_last()) + values.last().push('\n')
    }
}

/// Whether `found` is the value of the last line that is a field of this name, without a null
/// character where `no_null` asks for that: `None` exactly where there is no such line.
pub open spec fn is_last_value(
    lines: Seq<Seq<char>>,
    name: Seq<char>,
    no_null: bool,
    found: Option<Seq<char>>,
) -> bool {
    match found {
        Some(value) => exists|i: int|
            {
                &&& 0 <= i < lines.len()
                &&& is_field(#[trigger] lines[i], name, value)
                &&& no_null ==> !value.contains('\0')
                &&& no_such_line(lines, name, no_null, i + 1)
            },
        None => no_such_line(lines, name, no_null, 0),
    }
}

/// Whether no line from `start` on is a field of this name, without a null character where
/// `no_null` asks for that.
pub open spec fn no_such_line(
    lines: Seq<Seq<char>>,
    name: Seq<char>,
    no_null: bool,
    start: int,
) -> bool {
    forall|j: int, value: Seq<char>|
        start <= j < lines.len() && #[trigger] is_field(lines[j], name, value) ==> no_null
            && value.contains('\0')
}

/// The event under construction after lines of one block.
proof fn lemma_block(state: SseView, lines: Seq<Seq<char>>)
    requires
        state.pending == EventView::blank(),
        !state.has_data,
        forall|i: int| 0 <= i < lines.len() ==> (#[trigger] lines[i]).len() > 0,
    ensures
        ({
            let after = state.take_texts(lines);
            let data = values_of(lines, "data"@);
            &&& after.ready == state.ready
            &&& after.partial == state.partial
            &&& after.begun == state.begun
            &&& after.has_data == (data.len() > 0)
            &&& data.len() > 0 ==> after.pending.data.push('\n') == each_ended(data)
            &&& is_last_value(lines, "event"@, false, after.pending.event)
            &&& is_last_value(lines, "id"@, true, after.pending.id)
            &&& after.last_id == match after.pending.id {
                Some(id) => Some(id),
                None => state.last_id,
            }
        }),
    decreases lines.len(),
{
    reveal_strlit("data");
    reveal_strlit("id");
    reveal_strlit("event");
    assert("data"@.len() == 4 && "id"@.len() == 2 && "event"@.len() == 5);
    if lines.len() > 0 {
        let init = lines.drop_last();
        let line = lines.last();
        assert forall|i: int| 0 <= i < init.len() implies (#[trigger] init[i]).len() > 0 by {
            assert(init[i] == lines[i]);
        }
        lemma_block(state, init);
        let mid = state.take_texts(init);
        let after_line = state.take_texts(lines);
        let name = before(line, ':');
        let value = without_first(after(line, ':'), ' ');
        let end = lines.len() - 1;
        assert(line == lines[end]);
        law_line_is_one_field(line, name, value);
        assert forall|n: Seq<char>, v: Seq<char>| #[trigger] is_field(line, n, v) implies n == name
            && v == value by {
            law_line_is_one_field(line, n, v);
        }
        lemma_last_value(init, line, "event"@, false, mid.pending.event);
        lemma_last_value(init, line, "id"@, true, mid.pending.id);
        let data = values_of(init, "data"@);
        if name == "data"@ {
            assert(is_field(line, "data"@, value));
            let all = values_of(lines, "data"@);
            assert(all == data.push(value));
            assert(all.drop_last() =~= data);
            if data.len() > 0 {
                assert(after_line.pending.data.push('\n') =~= mid.pending.data.push('\n')
                    + value.push('\n'));
            } else {
                assert(each_ended(data) =~= Seq::<char>::empty());
                assert(each_ended(all) =~= value.push('\n'));
            }
        }
    }
}

/// What one more line does to the last value of a name.
proof fn lemma_last_value(
    init: Seq<Seq<char>>,
    line: Seq<char>,
    name: Seq<char>,
    no_null: bool,
    found: Option<Seq<char>>,
)
    requires
        is_last_value(init, name, no_null, found),
    ensures
        forall|lines: Seq<Seq<char>>|
            lines.len() > 0 && lines.drop_last() == init && lines.last() == line ==> {
                &&& forall|value: Seq<char>| #[trigger]
                    is_field(line, name, value) && (no_null ==> !value.contains('\0'))
                        ==> #[trigger] is_last_value(lines, name, no_null, Some(value))
                &&& (forall|value: Seq<char>| #[trigger]
                    is_field(line, name, value) ==> no_null && value.contains('\0'))
                    ==> #[trigger] is_last_value(lines, name, no_null, found)
            },
{
    assert forall|lines: Seq<Seq<char>>|
        lines.len() > 0 && lines.drop_last() == init && lines.last() == line implies {
        &&& forall|value: Seq<char>| #[trigger]
            is_field(line, name, value) && (no_null ==> !value.contains('\0'))
                ==> #[trigger] is_last_value(lines, name, no_null, Some(value))
        &&& (forall|value: Seq<char>| #[trigger]
            is_field(line, name, value) ==> no_null && value.contains('\0'))
            ==> #[trigger] is_last_value(lines, name, no_null, found)
    } by {
        let end = lines.len() - 1;
        assert(lines[end] == line);
        assert forall|value: Seq<char>| #[trigger]
            is_field(line, name, value) && (no_null ==> !value.contains('\0'))
            implies #[trigger] is_last_value(lines, name, no_null, Some(value)) by {
            assert(is_field(lines[end], name, value));
            assert(no_such_line(lines, name, no_null, end + 1));
        }
        if forall|value: Seq<char>| #[trigger]
            is_field(line, name, value) ==> no_null && value.contains('\0') {
            let start: int = match found {
                Some(value) => {
                    let i = choose|i: int|
                        {
                            &&& 0 <= i < init.len()
                            &&& is_field(#[trigger] init[i], name, value)
                            &&& no_null ==> !value.contains('\0')
                            &&& no_such_line(init, name, no_null, i + 1)
                        };
                    assert(lines[i] == init[i]);
                    i + 1
                },
                None => 0,
            };
            assert(no_such_line(init, name, no_null, start));
            assert(no_such_line(lines, name, no_null, start)) by {
                assert forall|j: int, value: Seq<char>|
                    start <= j < lines.len() && #[trigger] is_field(lines[j], name, value)
                    implies no_null && value.contains('\0') by {
                    if j < end {
                        assert(init[j] == lines[j]);
                        assert(is_field(init[j], name, value));
                    }
                }
            }
            assert(is_last_value(lines, name, no_null, found));
        }
    }
}

/// The lines of a block and the empty line behind them make one event where one of them is a
/// `data` line, and nothing else. Its data is the values of the `data` lines in order, with a
/// `\n` between them. Its type is the value of the last `event` line, wherever that stands
/// among the others, and there is none exactly where there is no such line. The same holds of
/// its id and the `id` lines without a null character, and of the last event id.
pub proof fn law_block_makes_event(state: SseView, lines: Seq<Seq<char>>)
    requires
        state.pending == EventView::blank(),
        !state.has_data,
        forall|i: int| 0 <= i < lines.len() ==> (#[trigger] lines[i]).len() > 0,
    ensures
        ({
            let done = state.take_texts(lines.push(Seq::empty()));
            let data = values_of(lines, "data"@);
            &&& done.pending == EventView::blank()
            &&& !done.has_data
            &&& done.partial == state.partial
            &&& done.begun == state.begun
            &&& data.len() == 0 ==> done.ready == state.ready
            &&& data.len() > 0 ==> {
                let event = done.ready.last();
                &&& done.ready == state.ready.push(event)
                &&& event.data.push('\n') == each_ended(data)
                &&& is_last_value(lines, "event"@, false, event.event)
                &&& is_last_value(lines, "id"@, true, event.id)
            }
            &&& exists|id: Option<Seq<char>>|
                {
                    &&& #[trigger] is_last_value(lines, "id"@, true, id)
                    &&& done.last_id == if id is Some {
                        id
                    } else {
                        state.last_id
                    }
                }
        }),
{
    lemma_block(state, lines);
    let whole = lines.push(Seq::empty());
    assert(whole.drop_last() =~= lines);
    assert(whole.last() =~= Seq::<char>::empty());
    let mid = state.take_texts(lines);
    assert(is_last_value(lines, "id"@, true, mid.pending.id));
}

/// Blocks follow one another: lines that are taken in one go have the effect of their parts,
/// one after the other.
pub proof fn law_lines_follow_one_another(
    state: SseView,
    first: Seq<Seq<char>>,
    second: Seq<Seq<char>>,
)
    ensures
        state.take_texts(first + second) == state.take_texts(first).take_texts(second),
    decreases second.len(),
{
    if second.len() == 0 {
        assert(first + second =~= first);
    } else {
        law_lines_follow_one_another(state, first, second.drop_last());
        assert((first + second).drop_last() =~= first + second.drop_last());
        assert((first + second).last() == second.last());
    }
}

/// Every raw line counts, whatever its length: raw lines have the effect of their texts.
pub proof fn law_raw_lines_are_read(state: SseView, lines: Seq<Seq<u8>>)
    ensures
        state.take_lines(lines) == (SseView {
            begun: state.begun || lines.len() > 0,
            ..state.take_texts(
                Seq::new(lines.len(), |i: int| text_of_line(state.begun || i > 0, lines[i])),
            )
        }),
    decreases lines.len(),
{
    if lines.len() > 0 {
        let init = lines.drop_last();
        let texts = Seq::new(
            lines.len(),
            |i: int| text_of_line(state.begun || i > 0, lines[i]),
        );
        law_raw_lines_are_read(state, init);
        assert(texts.drop_last() =~= Seq::new(
            init.len(),
            |i: int| text_of_line(state.begun || i > 0, init[i]),
        ));
        assert(texts.last() == state.take_lines(init).line_text(lines.last()));
    }
}

/// The text of a raw line is what its bytes decode to, without a byte order mark where it is
/// the first of the stream and without one `\r` at its end, and nothing else is missing.
pub proof fn law_text_of_line(begun: bool, raw: Seq<u8>)
    ensures
        ({
            let text = lossy_text(raw);
            let marked = !begun && text.len() > 0 && text[0] == '\u{feff}';
            let returned = text.len() > 0 && text[text.len() - 1] == '\r';
            text == (if marked {
                seq!['\u{feff}']
            } else {
                Seq::empty()
            }) + text_of_line(begun, raw) + (if returned {
                seq!['\r']
            } else {
                Seq::empty()
            })
        }),
        valid_utf8(raw) ==> lossy_text(raw) == decode_utf8(raw),
{
    let text = lossy_text(raw);
    let marked = !begun && text.len() > 0 && text[0] == '\u{feff}';
    let inner = if marked {
        text.drop_first()
    } else {
        text
    };
    assert(text =~= (if marked {
        seq!['\u{feff}']
    } else {
        Seq::empty()
    }) + inner);
    let returned = text.len() > 0 && text[text.len() - 1] == '\r';
    assert(inner =~= text_of_line(begun, raw) + (if returned {
        seq!['\r']
    } else {
        Seq::empty()
    }));
    assert(text =~= (if marked {
        seq!['\u{feff}']
    } else {
        Seq::empty()
    }) + text_of_line(begun, raw) + (if returned {
        seq!['\r']
    } else {
        Seq::empty()
    }));
}

/// A frame has the effect of the lines that it completes, all of them, and keeps the rest: how
/// long the lines are and where the frame ends plays no part.
pub proof fn law_frame_is_its_lines(
    state: SseView,
    data: Seq<u8>,
    lines: Seq<Seq<u8>>,
    rest: Seq<u8>,
)
    requires
        forall|i: int| 0 <= i < lines.len() ==> !(#[trigger] lines[i]).contains(NEWLINE),
        !rest.contains(NEWLINE),
        state.partial + data == terminated(lines) + rest,
    ensures
        state.feed(data) == (SseView { partial: rest, ..state.take_lines(lines) }),
{
    law_terminated_lines_read_back(lines);
    law_lines_across_frames(terminated(lines), rest);
    assert(Seq::<u8>::empty() + rest =~= rest);
    crate::lines::law_unterminated_stream(rest);
    assert(complete_lines(state.partial + data) =~= lines);
}

/// Lines neither read nor change the unfinished line.
proof fn lemma_lines_leave_partial(state: SseView, partial: Seq<u8>, lines: Seq<Seq<u8>>)
    ensures
        (SseView { partial, ..state }).take_lines(lines) == (SseView {
            partial,
            ..state.take_lines(lines)
        }),
    decreases lines.len(),
{
    if lines.len() > 0 {
        lemma_lines_leave_partial(state, partial, lines.drop_last());
    }
}

/// Lines only append to the finished events.
proof fn lemma_lines_append_ready(state: SseView, queue: Seq<EventView>, lines: Seq<Seq<u8>>)
    ensures
        (SseView { ready: queue + state.ready, ..state }).take_lines(lines) == (SseView {
            ready: queue + state.take_lines(lines).ready,
            ..state.take_lines(lines)
        }),
    decreases lines.len(),
{
    if lines.len() > 0 {
        let init = lines.drop_last();
        lemma_lines_append_ready(state, queue, init);
        let mid = state.take_lines(init);
        let line = mid.line_text(lines.last());
        if line.len() == 0 && mid.has_data {
            assert((queue + mid.ready).push(mid.pending) =~= queue + mid.ready.push(mid.pending));
        }
    }
}

/// Lines one behind the other.
proof fn lemma_lines_concat(state: SseView, first: Seq<Seq<u8>>, second: Seq<Seq<u8>>)
    ensures
        state.take_lines(first + second) == state.take_lines(first).take_lines(second),
    decreases second.len(),
{
    if second.len() == 0 {
        assert(first + second =~= first);
    } else {
        lemma_lines_concat(state, first, second.drop_last());
        assert((first + second).drop_last() =~= first + second.drop_last());
    }
}

/// Frame boundaries do not matter: a frame cut in two has the effect of the whole.
pub proof fn law_feed_across_frames(state: SseView, head: Seq<u8>, tail: Seq<u8>)
    requires
        !state.partial.contains(NEWLINE),
    ensures
        state.feed(head).feed(tail) == state.feed(head + tail),
{
    let whole = state.partial + head;
    let left = partial_line(whole);
    let first = complete_lines(whole);
    let second = complete_lines(left + tail);
    assert(state.partial + (head + tail) =~= whole + tail);
    law_lines_across_frames(whole, tail);
    lemma_lines_concat(state, first, second);
    lemma_lines_leave_partial(state.take_lines(first), left, second);
}

/// However many frames bytes are cut into, they have the effect of one frame.
pub proof fn law_frames_as_one(state: SseView, frames: Seq<Seq<u8>>)
    requires
        !state.partial.contains(NEWLINE),
    ensures
        state.feed_all(frames) == state.feed(frame_bytes(frames)),
    decreases frames.len(),
{
    if frames.len() == 0 {
        assert(state.partial + Seq::<u8>::empty() =~= state.partial);
        crate::lines::law_unterminated_stream(state.partial);
        assert(state.feed(Seq::empty()) =~= state);
    } else {
        law_frames_as_one(state, frames.drop_last());
        law_feed_across_frames(state, frame_bytes(frames.drop_last()), frames.last());
    }
}

/// The last id after raw lines is the one that the last line to give one gave.
proof fn lemma_last_id(state: SseView, lines: Seq<Seq<u8>>)
    ensures
        state.take_lines(lines).last_id == last_id_in(state.line_texts(lines), state.last_id),
        state.take_lines(lines).begun == (state.begun || lines.len() > 0),
    decreases lines.len(),
{
    if lines.len() > 0 {
        let init = lines.drop_last();
        let texts = state.line_texts(lines);
        lemma_last_id(state, init);
        assert(texts.drop_last() =~= state.line_texts(init));
        assert(texts.last() == state.take_lines(init).line_text(lines.last()));
        reveal_strlit("data");
        reveal_strlit("id");
        assert("data"@.len() != "id"@.len());
    }
}

/// The last event id is the one that was received most recently: after any frames it is the
/// value of the last `id` line without a null character among the lines that they complete,
/// or what it was before where there is none.
pub proof fn law_last_event_id(state: SseView, frames: Seq<Seq<u8>>)
    requires
        !state.partial.contains(NEWLINE),
    ensures
        state.feed_all(frames).last_id == last_id_in(
            state.line_texts(complete_lines(state.partial + frame_bytes(frames))),
            state.last_id,
        ),
{
    law_frames_as_one(state, frames);
    lemma_last_id(state, complete_lines(state.partial + frame_bytes(frames)));
}

/// Polling hands out what is ready, whatever else the parser holds.
proof fn lemma_run_hands_out_ready<E>(state: SseView, polls: Seq<BodyPoll<E>>)
    ensures
        state.run(polls) == state.ready + state.drained().run(polls),
    decreases state.ready.len(),
{
    if state.ready.len() > 0 {
        lemma_run_hands_out_ready(state.popped(), polls);
        assert(state.popped().drained() == state.drained());
        assert(seq![state.ready.first()] + state.ready.drop_first() =~= state.ready);
        assert(state.run(polls) =~= state.ready + state.drained().run(polls));
    } else {
        assert(state.ready =~= Seq::<EventView>::empty());
        assert(state.drained() =~= state);
        assert(state.run(polls) =~= state.ready + state.run(polls));
    }
}

/// The events that come out of a body depend on its bytes alone, not on how they are cut
/// into frames or when they arrive: they are those that the bytes finish, fed as one.
pub proof fn law_events_of_body<E>(state: SseView, polls: Seq<BodyPoll<E>>)
    requires
        !state.partial.contains(NEWLINE),
    ensures
        state.run(polls) == state.feed(body_data(polls)).ready,
    decreases polls.len(),
{
    let data = body_data(polls);
    let calm = state.drained();
    lemma_run_hands_out_ready(state, polls);
    assert(calm.run(polls) == calm.feed(data).ready) by {
        let nothing = Seq::<u8>::empty();
        assert(calm.partial + nothing =~= calm.partial);
        crate::lines::law_unterminated_stream(calm.partial);
        assert(calm.feed(nothing) =~= calm);
        if polls.len() > 0 {
            let rest = polls.drop_first();
            match polls.first() {
                BodyPoll::Data(frame) => {
                    let fed = calm.feed(bytes_of(frame));
                    law_lines_hold_no_newline(calm.partial + bytes_of(frame));
                    law_events_of_body(fed, rest);
                    law_feed_across_frames(calm, bytes_of(frame), body_data(rest));
                    if fed.ready.len() > 0 {
                        assert(fed.run(rest) == seq![fed.ready.first()] + fed.popped().run(rest));
                    }
                },
                BodyPoll::Trailers | BodyPoll::Pending => {
                    law_events_of_body(calm, rest);
                },
                BodyPoll::Failed(_) | BodyPoll::End => {},
            }
        }
    }
    let lines = complete_lines(state.partial + data);
    lemma_lines_append_ready(calm, state.ready, lines);
    assert(state.ready + calm.ready =~= state.ready);
    assert(state =~= (SseView { ready: state.ready + calm.ready, ..calm }));
}

/// A line that starts with `:` is a comment: it changes nothing.
pub proof fn law_comment_is_ignored(state: SseView, comment: Seq<char>)
    ensures
        state.take_line(seq![':'] + comment) == state,
{
    let line = seq![':'] + comment;
    assert(line.first() == ':');
    reveal_strlit("data");
    reveal_strlit("id");
    reveal_strlit("event");
    assert(before(line, ':').len() == 0);
}

/// An event without a `data` line is dropped: the empty line behind it queues nothing, and
/// the event's name and id are forgotten.
pub proof fn law_event_without_data_is_dropped(state: SseView)
    requires
        !state.has_data,
    ensures
        state.take_line(Seq::empty()).ready == state.ready,
        state.take_line(Seq::empty()).pending == EventView::blank(),
        state.take_line(Seq::empty()).last_id == state.last_id,
{
}

/// Values, joined by `\n`.
pub open spec fn joined(values: Seq<Seq<char>>) -> Seq<char>
    decreases values.len(),
{
    if values.len() == 0 {
        Seq::empty()
    } else if values.len() == 1 {
        values[0]
    } else {
        joined(values.drop_last()).push('\n') + values.last()
    }
}

/// The `data` lines of values, as they are written: with one space behind the colon.
pub open spec fn data_lines(values: Seq<Seq<char>>) -> Seq<Seq<char>> {
    values.map_values(|value: Seq<char>| "data"@.push(':') + (seq![' '] + value))
}

/// Data is read as it was written: `data` lines and the empty line behind them make one
/// event, whose data is the values of the lines, joined by `\n`, with every space but the one
/// behind the colon and with empty lines.
pub proof fn law_data_lines_make_one_event(state: SseView, values: Seq<Seq<char>>)
    requires
        !state.has_data,
        state.pending.data.len() == 0,
        values.len() > 0,
    ensures
        state.take_texts(data_lines(values)).take_line(Seq::empty()) == (SseView {
            pending: EventView::blank(),
            ready: state.ready.push(EventView { data: joined(values), ..state.pending }),
            ..state
        }),
{
    lemma_data_lines(state, values);
}

/// The event under construction after some `data` lines.
proof fn lemma_data_lines(state: SseView, values: Seq<Seq<char>>)
    requires
        !state.has_data,
        state.pending.data.len() == 0,
    ensures
        state.take_texts(data_lines(values)) == (SseView {
            pending: EventView { data: joined(values), ..state.pending },
            has_data: values.len() > 0,
            ..state
        }),
    decreases values.len(),
{
    let lines = data_lines(values);
    if values.len() == 0 {
        assert(state.pending.data =~= Seq::<char>::empty());
    } else {
        let value = values.last();
        let line = lines.last();
        lemma_data_lines(state, values.drop_last());
        assert(lines.drop_last() =~= data_lines(values.drop_last()));
        assert(!"data"@.contains(':')) by {
            reveal_strlit("data");
        }
        crate::text::lemma_before_after("data"@, ':', seq![' '] + value);
        assert((seq![' '] + value).drop_first() =~= value);
        assert(line.len() > 0);
    }
}

/// The text of an optional field.
pub open spec fn text_of(field: Option<String>) -> Option<Seq<char>> {
    match field {
        Some(text) => Some(text@),
        None => None,
    }
}

/// The contents of events, in order.
pub open spec fn events_of(events: Seq<SseEvent>) -> Seq<EventView> {
    events.map_values(|event: SseEvent| event@)
}

/// A single Server-Sent Event.
#[derive(Debug)]
pub struct SseEvent {
    id: Option<String>,
    event: Option<String>,
    data: String,
}

impl View for SseEvent {
    type V = EventView;

    closed spec fn view(&self) -> EventView {
        EventView { id: text_of(self.id), event: text_of(self.event), data: self.data@ }
    }
}

impl Default for SseEvent {
    fn default() -> (r: Self)
        ensures
            r@ == EventView::blank(),
    {
        SseEvent { id: None, event: None, data: String::new() }
    }
}

impl SseEvent {
    /// The `id` field, if the event has one.
    pub fn id(&self) -> (r: Option<&str>)
        ensures
            match r {
                Some(text) => self@.id == Some(text@),
                None => self@.id is None,
            },
    {
        match &self.id {
            Some(text) => Some(text.as_str()),
            None => None,
        }
    }

    /// The `event` field, if the event has one.
    pub fn event(&self) -> (r: Option<&str>)
        ensures
            match r {
                Some(text) => self@.event == Some(text@),
                None => self@.event is None,
            },
    {
        match &self.event {
            Some(text) => Some(text.as_str()),
            None => None,
        }
    }

    /// The `data` fields, joined by `\n`.
    pub fn data(&self) -> (r: &str)
        ensures
            r@ == self@.data,
    {
        self.data.as_str()
    }
}

/// A streaming Server-Sent Events parser.
///
/// It takes the frames of an HTTP response body, whatever their boundaries, puts
/// `\n`-terminated lines together and builds [`SseEvent`]s of them.
pub struct SseStream {
    /// Bytes that no `\n` has ended yet.
    buffer: LineBuffer,
    /// The event under construction.
    pending_event: SseEvent,
    /// Whether the event under construction has a `data` line.
    has_data: bool,
    /// Whether a line of the stream has been read.
    begun: bool,
    /// Finished events, oldest first.
    ready_events: VecDeque<SseEvent>,
    /// The most recent `id` field.
    last_event_id: Option<String>,
}

impl View for SseStream {
    type V = SseView;

    closed spec fn view(&self) -> SseView {
        SseView {
            partial: self.buffer@,
            pending: self.pending_event@,
            has_data: self.has_data,
            begun: self.begun,
            ready: events_of(self.ready_events@),
            last_id: text_of(self.last_event_id),
        }
    }
}

impl SseStream {
    /// The buffered bytes are one unfinished line.
    pub open spec fn well_formed(&self) -> bool {
        !self@.partial.contains(NEWLINE)
    }

    /// Creates a parser that has seen nothing.
    pub fn new() -> (r: Self)
        ensures
            r@ == SseView::initial(),
            r.well_formed(),
    {
        let r = SseStream {
            buffer: LineBuffer::new(),
            pending_event: SseEvent::default(),
            has_data: false,
            begun: false,
            ready_events: VecDeque::new(),
            last_event_id: None,
        };
        assert(events_of(r.ready_events@) =~= Seq::<EventView>::empty());
        r
    }

    /// The most recently received event ID, if any.
    pub fn last_event_id(&self) -> (r: Option<&str>)
        ensures
            match r {
                Some(text) => self@.last_id == Some(text@),
                None => self@.last_id is None,
            },
    {
        match &self.last_event_id {
            Some(text) => Some(text.as_str()),
            None => None,
        }
    }

    /// Takes one line, given without what ends it.
    pub fn process_line(&mut self, line: &str)
        ensures
            final(self)@ == old(self)@.take_line(line@),
            forall|value: Seq<char>| #[trigger]
                is_field(line@, "event"@, value) ==> final(self)@.pending.event == Some(value),
            forall|value: Seq<char>| #[trigger]
                is_field(line@, "id"@, value) && !value.contains('\0') ==> {
                    &&& final(self)@.pending.id == Some(value)
                    &&& final(self)@.last_id == Some(value)
                },
            (forall|value: Seq<char>| !(#[trigger] is_field(line@, "event"@, value))) && line@.len()
                > 0 ==> final(self)@.pending.event == old(self)@.pending.event,
            line@.len() > 0 ==> final(self)@.ready == old(self)@.ready,
    {
        proof {
            if line@.len() > 0 {
                let name = before(line@, ':');
                let value = without_first(after(line@, ':'), ' ');
                law_line_is_one_field(line@, name, value);
                assert forall|n: Seq<char>, v: Seq<char>| #[trigger]
                    is_field(line@, n, v) implies n == name && v == value by {
                    law_line_is_one_field(line@, n, v);
                }
            }
            reveal_strlit("data");
            reveal_strlit("id");
            reveal_strlit("event");
            assert("data"@.len() == 4 && "id"@.len() == 2 && "event"@.len() == 5);
        }
        if line.is_empty() {
            let mut finished = SseEvent::default();
            std::mem::swap(&mut finished, &mut self.pending_event);
            if self.has_data {
                let ghost before_push = self.ready_events@;
                self.ready_events.push_back(finished);
                assert(events_of(self.ready_events@) =~= events_of(before_push).push(finished@));
            }
            self.has_data = false;
            return ;
        }
        let (name, rest) = split_first(line, ':');
        let value = match rest {
            Some(tail) => drop_first_if(tail, ' '),
            None => {
                proof {
                    crate::text::lemma_before_without(line@, ':');
                    reveal_strlit("");
                    assert(""@ =~= Seq::<char>::empty());
                }
                ""
            },
        };
        if same_text(name, "data") {
            if self.has_data {
                proof {
                    reveal_strlit("\n");
                    assert("\n"@ =~= seq!['\n']);
                }
                self.pending_event.data.append("\n");
                assert(self.pending_event.data@ =~= old(self)@.pending.data.push('\n'));
                self.pending_event.data.append(value);
            } else {
                self.pending_event.data = value.to_owned();
            }
            self.has_data = true;
        } else if same_text(name, "id") {
            if split_first(value, '\0').1.is_none() {
                self.pending_event.id = Some(value.to_owned());
                self.last_event_id = Some(value.to_owned());
            }
        } else if same_text(name, "event") {
            self.pending_event.event = Some(value.to_owned());
        }
    }

    /// Takes one raw line, given without its `\n`.
    fn process_raw_line(&mut self, raw: &[u8])
        ensures
            final(self)@ == old(self)@.take_raw_line(raw@),
    {
        let text = decode_lossy(raw);
        let unmarked = if self.begun {
            text.as_str()
        } else {
            drop_first_if(text.as_str(), '\u{feff}')
        };
        self.process_line(drop_last_if(unmarked, '\r'));
        self.begun = true;
    }

    /// Takes the bytes of a data frame: every line that it completes is processed, what
    /// follows the last `\n` is kept for the next frame.
    pub fn append_frame(&mut self, frame: Bytes)
        requires
            old(self).well_formed(),
        ensures
            final(self)@ == old(self)@.feed(bytes_of(frame)),
            final(self).well_formed(),
    {
        let lines = self.buffer.append(frame);
        let ghost start = *self;
        let ghost raw = lines_of(lines@);
        let count: usize = lines.len();
        let mut at: usize = 0;
        assert(raw.take(0) =~= Seq::<Seq<u8>>::empty());
        while at < count
            invariant
                at <= count == lines@.len(),
                raw == lines_of(lines@),
                self@ == start@.take_lines(raw.take(at as int)),
            decreases count - at,
        {
            self.process_raw_line(lines[at].as_slice());
            at = at + 1;
            assert(raw.take(at as int).drop_last() =~= raw.take(at - 1));
            assert(raw.take(at as int).last() == lines@[at - 1]@);
        }
        proof {
            assert(raw.take(count as int) =~= raw);
            lemma_lines_leave_partial(old(self)@, start@.partial, raw);
            assert(start@ =~= (SseView { partial: start@.partial, ..old(self)@ }));
            law_lines_hold_no_newline(old(self)@.partial + bytes_of(frame));
        }
    }

    /// Hands out the oldest finished event.
    fn pop_ready(&mut self) -> (r: Option<SseEvent>)
        ensures
            match r {
                Some(event) => {
                    &&& old(self)@.ready.len() > 0
                    &&& event@ == old(self)@.ready.first()
                    &&& final(self)@ == old(self)@.popped()
                },
                None => old(self)@.ready.len() == 0 && final(self)@ == old(self)@,
            },
    {
        let ghost queue = self.ready_events@;
        let r = self.ready_events.pop_front();
        assert(r is Some ==> events_of(self.ready_events@) =~= events_of(queue).drop_first());
        r
    }

    /// Decides what to answer once the body has been polled.
    pub fn take_frame<E>(&mut self, polled: BodyPoll<E>) -> (r: StreamStep<SseEvent, E>)
        requires
            old(self).well_formed(),
        ensures
            (final(self)@, r@) == old(self)@.step(polled),
            polled matches BodyPoll::Failed(error) ==> r == StreamStep::<SseEvent, E>::Failed(
                error,
            ),
            polled is End <==> r is End,
            polled is Pending <==> r is Pending,
            !(polled is Data) ==> final(self)@ == old(self)@,
            final(self).well_formed(),
    {
        match polled {
            BodyPoll::Data(frame) => {
                self.append_frame(frame);
                match self.pop_ready() {
                    Some(event) => StreamStep::Item(event),
                    None => StreamStep::Wake,
                }
            },
            BodyPoll::Trailers => StreamStep::Wake,
            BodyPoll::Failed(error) => StreamStep::Failed(error),
            BodyPoll::End => StreamStep::End,
            BodyPoll::Pending => StreamStep::Pending,
        }
    }

    /// Polls for the next event. The body is polled only when no finished event is left.
    pub fn poll_next<E, F: FnOnce() -> BodyPoll<E>>(&mut self, poll_frame: F) -> (r: StreamStep<
        SseEvent,
        E,
    >)
        requires
            old(self).well_formed(),
            old(self)@.ready.len() == 0 ==> poll_frame.requires(()),
        ensures
            old(self)@.ready.len() > 0 ==> {
                &&& r@ == StreamStep::<EventView, E>::Item(old(self)@.ready.first())
                &&& final(self)@ == old(self)@.popped()
            },
            old(self)@.ready.len() == 0 ==> exists|polled: BodyPoll<E>|
                {
                    &&& poll_frame.ensures((), polled)
                    &&& (final(self)@, r@) == #[trigger] old(self)@.step(polled)
                },
            final(self).well_formed(),
    {
        match self.pop_ready() {
            Some(event) => StreamStep::Item(event),
            None => {
                let polled = poll_frame();
                self.take_frame(polled)
            },
        }
    }
}

/// A stream begins with nothing: no bytes, no event, no id, and a byte order mark can follow.
pub proof fn law_stream_begins_empty(r: SseStream)
    requires
        call_ensures(SseStream::new, (), r),
    ensures
        r@.partial.len() == 0,
        r@.pending == (EventView { id: None, event: None, data: Seq::empty() }),
        !r@.has_data,
        !r@.begun,
        r@.ready.len() == 0,
        r@.last_id is None,
{
}

/// A line has the effect of what it is. An empty one hands over the event under construction
/// where that has a `data` line, and begins another in any case. A field of the name `data`,
/// `event` or `id` changes what it is named after, whatever came before it in the block, and
/// nothing else; any other line changes nothing.
pub proof fn law_line_has_its_effect(
    stream: &mut SseStream,
    line: &str,
    name: Seq<char>,
    value: Seq<char>,
)
    requires
        call_ensures(SseStream::process_line, (stream, line), ()),
        line@.len() > 0 ==> is_field(line@, name, value),
    ensures
        final(stream)@.partial == old(stream)@.partial,
        final(stream)@.begun == old(stream)@.begun,
        line@.len() == 0 ==> {
            &&& final(stream)@.pending == (EventView { id: None, event: None, data: Seq::empty() })
            &&& !final(stream)@.has_data
            &&& final(stream)@.last_id == old(stream)@.last_id
            &&& old(stream)@.has_data ==> final(stream)@.ready == old(stream)@.ready.push(
                old(stream)@.pending,
            )
            &&& !old(stream)@.has_data ==> final(stream)@.ready == old(stream)@.ready
        },
        line@.len() > 0 ==> {
            &&& final(stream)@.ready == old(stream)@.ready
            &&& final(stream)@.has_data == (old(stream)@.has_data || name == "data"@)
            &&& final(stream)@.pending.data == if name != "data"@ {
                old(stream)@.pending.data
            } else if old(stream)@.has_data {
                old(stream)@.pending.data + seq!['\n'] + value
            } else {
                value
            }
            &&& final(stream)@.pending.event == if name == "event"@ {
                Some(value)
            } else {
                old(stream)@.pending.event
            }
            &&& final(stream)@.pending.id == if name == "id"@ && !value.contains('\0') {
                Some(value)
            } else {
                old(stream)@.pending.id
            }
            &&& final(stream)@.last_id == if name == "id"@ && !value.contains('\0') {
                Some(value)
            } else {
                old(stream)@.last_id
            }
        },
{
    reveal_strlit("data");
    reveal_strlit("id");
    reveal_strlit("event");
    assert("data"@.len() == 4 && "id"@.len() == 2 && "event"@.len() == 5);
    if line@.len() > 0 {
        law_line_is_one_field(line@, name, value);
        assert(old(stream)@.pending.data.push('\n') =~= old(stream)@.pending.data + seq!['\n']);
    }
}

/// The stream answers as the body does: a failure with the body's own error, the end with the
/// end, both only then, and neither changes what the stream holds. While a finished event is
/// left, the oldest is handed out and nothing else changes.
pub proof fn law_stream_answers<E, F: FnOnce() -> BodyPoll<E>>(
    stream: &mut SseStream,
    poll_frame: F,
    r: StreamStep<SseEvent, E>,
)
    requires
        call_ensures(SseStream::poll_next::<E, F>, (stream, poll_frame), r),
    ensures
        old(stream)@.ready.len() > 0 ==> {
            &&& r matches StreamStep::Item(event)
            &&& old(stream)@.ready == seq![event@] + final(stream)@.ready
            &&& final(stream)@ == (SseView { ready: final(stream)@.ready, ..old(stream)@ })
        },
        old(stream)@.ready.len() == 0 ==> exists|polled: BodyPoll<E>|
            {
                &&& #[trigger] poll_frame.ensures((), polled)
                &&& polled matches BodyPoll::Failed(error) ==> r == StreamStep::<
                    SseEvent,
                    E,
                >::Failed(error)
                &&& polled is End <==> r is End
                &&& polled is Pending <==> r is Pending
                &&& polled is Failed <==> r is Failed
                &&& !(polled is Data) ==> final(stream)@ == old(stream)@
                &&& polled matches BodyPoll::Data(frame) ==> {
                    let fed = old(stream)@.feed(bytes_of(frame));
                    &&& r matches StreamStep::Item(event) ==> fed.ready == seq![event@]
                        + final(stream)@.ready
                    &&& r is Wake <==> fed.ready.len() == 0
                    &&& final(stream)@ == (SseView { ready: final(stream)@.ready, ..fed })
                }
            },
{
    let held = old(stream)@;
    if held.ready.len() > 0 {
        assert(held.ready =~= seq![held.ready.first()] + held.ready.drop_first());
    } else {
        let polled = choose|polled: BodyPoll<E>|
            {
                &&& poll_frame.ensures((), polled)
                &&& (final(stream)@, r@) == #[trigger] held.step(polled)
            };
        assert(poll_frame.ensures((), polled));
        if let BodyPoll::Data(frame) = polled {
            let fed = held.feed(bytes_of(frame));
            if fed.ready.len() > 0 {
                assert(fed.ready =~= seq![fed.ready.first()] + fed.ready.drop_first());
            } else {
                assert(final(stream)@ =~= SseView { ready: final(stream)@.ready, ..fed });
            }
        }
    }
}

/// A frame is taken as the lines that it completes, all of them, and the rest is kept.
pub proof fn law_frame_is_taken(
    stream: &mut SseStream,
    frame: Bytes,
    lines: Seq<Seq<u8>>,
    rest: Seq<u8>,
)
    requires
        call_ensures(SseStream::append_frame, (stream, frame), ()),
        forall|i: int| 0 <= i < lines.len() ==> !(#[trigger] lines[i]).contains(NEWLINE),
        !rest.contains(NEWLINE),
        old(stream)@.partial + bytes_of(frame) == terminated(lines) + rest,
    ensures
        final(stream)@ == (SseView {
            partial: rest,
            begun: old(stream)@.begun || lines.len() > 0,
            ..old(stream)@.take_texts(
                Seq::new(
                    lines.len(),
                    |i: int| text_of_line(old(stream)@.begun || i > 0, lines[i]),
                ),
            )
        }),
{
    law_frame_is_its_lines(old(stream)@, bytes_of(frame), lines, rest);
    law_raw_lines_are_read(old(stream)@, lines);
}

} // verus!
