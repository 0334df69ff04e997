//! Splitting a byte stream into `\n`-terminated lines, whatever the frame boundaries.

use std::collections::VecDeque;

use bytes::Bytes;
use vstd::prelude::*;

use crate::buf::{advance, bytes_of, chunk, has_remaining};

verus! {

/// The byte that ends a line.
pub const NEWLINE: u8 = 10;

/// The lines that a `\n` ends in `stream`, in order, each without its `\n`.
pub open spec fn complete_lines(stream: Seq<u8>) -> Seq<Seq<u8>>
    decreases stream.len(),
{
    if stream.len() == 0 {
        Seq::empty()
    } else if stream.last() == NEWLINE {
        complete_lines(stream.drop_last()).push(partial_line(stream.drop_last()))
    } else {
        complete_lines(stream.drop_last())
    }
}

/// What stands behind the last `\n` of `stream`: all of it, where there is none.
pub open spec fn partial_line(stream: Seq<u8>) -> Seq<u8>
    decreases stream.len(),
{
    if stream.len() == 0 {
        Seq::empty()
    } else if stream.last() == NEWLINE {
        Seq::empty()
    } else {
        partial_line(stream.drop_last()).push(stream.last())
    }
}

/// The stream that `lines` make when each is followed by a `\n`.
pub open spec fn terminated(lines: Seq<Seq<u8>>) -> Seq<u8>
    decreases lines.len(),
{
    if lines.len() == 0 {
        Seq::empty()
    } else {
        terminated(lines.drop_last()) + lines.last().push(NEWLINE)
    }
}

/// Splitting loses nothing: the complete lines, each with its `\n`, and the partial line
/// are the stream again.
pub proof fn law_lines_rebuild_stream(stream: Seq<u8>)
    ensures
        terminated(complete_lines(stream)) + partial_line(stream) == stream,
    decreases stream.len(),
{
    if stream.len() > 0 {
        let init = stream.drop_last();
        law_lines_rebuild_stream(init);
        assert(init.push(stream.last()) =~= stream);
        if stream.last() == NEWLINE {
            assert(complete_lines(stream).drop_last() =~= complete_lines(init));
            assert(terminated(complete_lines(stream)) + partial_line(stream) =~= stream);
        } else {
            assert(terminated(complete_lines(stream)) + partial_line(stream) =~= stream);
        }
    } else {
        assert(terminated(complete_lines(stream)) + partial_line(stream) =~= stream);
    }
}

/// No line, complete or partial, holds a `\n`.
pub proof fn law_lines_hold_no_newline(stream: Seq<u8>)
    ensures
        !partial_line(stream).contains(NEWLINE),
        forall|i: int|
            0 <= i < complete_lines(stream).len() ==> !(
            #[trigger] complete_lines(stream)[i]).contains(NEWLINE),
    decreases stream.len(),
{
    if stream.len() > 0 {
        let init = stream.drop_last();
        law_lines_hold_no_newline(init);
        if stream.last() == NEWLINE {
            assert forall|i: int| 0 <= i < complete_lines(stream).len() implies !(
            #[trigger] complete_lines(stream)[i]).contains(NEWLINE) by {
                if i < complete_lines(init).len() {
                    assert(complete_lines(stream)[i] == complete_lines(init)[i]);
                }
            }
        } else {
            let before = partial_line(init);
            assert forall|i: int| 0 <= i < partial_line(stream).len() implies partial_line(
                stream,
            )[i] != NEWLINE by {
                if i < before.len() {
                    assert(before.contains(before[i]));
                    assert(partial_line(stream)[i] == before[i]);
                }
            }
        }
    }
}

/// A stream without a `\n` is one partial line.
pub proof fn law_unterminated_stream(stream: Seq<u8>)
    requires
        !stream.contains(NEWLINE),
    ensures
        complete_lines(stream) == Seq::<Seq<u8>>::empty(),
        partial_line(stream) == stream,
    decreases stream.len(),
{
    if stream.len() > 0 {
        let init = stream.drop_last();
        assert(stream.contains(stream.last()));
        assert forall|i: int| 0 <= i < init.len() implies init[i] != NEWLINE by {
            assert(stream.contains(stream[i]));
        }
        law_unterminated_stream(init);
        assert(init.push(stream.last()) =~= stream);
    }
}

/// Frame boundaries do not matter: splitting `head + tail` gives the lines of `head`,
/// then those of what `head` left over followed by `tail`.
pub proof fn law_lines_across_frames(head: Seq<u8>, tail: Seq<u8>)
    ensures
        complete_lines(head + tail) == complete_lines(head) + complete_lines(
            partial_line(head) + tail,
        ),
        partial_line(head + tail) == partial_line(partial_line(head) + tail),
    decreases tail.len(),
{
    let left = partial_line(head);
    if tail.len() == 0 {
        assert(head + tail =~= head);
        assert(left + tail =~= left);
        law_lines_hold_no_newline(head);
        law_unterminated_stream(left);
        assert(complete_lines(head) + complete_lines(left) =~= complete_lines(head));
    } else {
        let init = tail.drop_last();
        law_lines_across_frames(head, init);
        assert((head + tail).drop_last() =~= head + init);
        assert((left + tail).drop_last() =~= left + init);
        assert(complete_lines(head + tail) =~= complete_lines(head) + complete_lines(left + tail));
    }
}

/// Lines written with their `\n` are read back as they were, as long as none holds a `\n`.
pub proof fn law_terminated_lines_read_back(lines: Seq<Seq<u8>>)
    requires
        forall|i: int| 0 <= i < lines.len() ==> !(#[trigger] lines[i]).contains(NEWLINE),
    ensures
        complete_lines(terminated(lines)) == lines,
        partial_line(terminated(lines)) == Seq::<u8>::empty(),
    decreases lines.len(),
{
    if lines.len() > 0 {
        let init = lines.drop_last();
        let last = lines.last();
        assert forall|i: int| 0 <= i < init.len() implies !(#[trigger] init[i]).contains(
            NEWLINE,
        ) by {
            assert(init[i] == lines[i]);
        }
        law_terminated_lines_read_back(init);
        let before = terminated(init);
        let whole = terminated(lines);
        assert(!last.contains(NEWLINE)) by {
            assert(last == lines[lines.len() - 1]);
        }
        assert(whole.drop_last() =~= before + last);
        law_lines_across_frames(before, last);
        assert(Seq::<u8>::empty() + last =~= last);
        law_unterminated_stream(last);
        assert(complete_lines(before) + Seq::<Seq<u8>>::empty() =~= complete_lines(before));
        assert(init.push(last) =~= lines);
    }
}

/// The bytes of each line.
pub open spec fn lines_of(lines: Seq<Vec<u8>>) -> Seq<Seq<u8>> {
    lines.map_values(|line: Vec<u8>| line@)
}

/// A line splitter for a stream that arrives in frames.
///
/// It keeps the line that no `\n` has ended yet; [`LineBuffer::append`] takes the next
/// frame and hands out the lines that it completes.
pub struct LineBuffer {
    /// Bytes behind the last `\n`.
    buffer: VecDeque<u8>,
}

impl View for LineBuffer {
    type V = Seq<u8>;

    closed spec fn view(&self) -> Seq<u8> {
        self.buffer@
    }
}

impl LineBuffer {
    /// What is kept is one unfinished line.
    pub open spec fn well_formed(&self) -> bool {
        !self@.contains(NEWLINE)
    }

    /// Creates a splitter that has seen nothing.
    pub fn new() -> (r: Self)
        ensures
            r@ == Seq::<u8>::empty(),
            r.well_formed(),
    {
        LineBuffer { buffer: VecDeque::with_capacity(256) }
    }

    /// Copies the bytes from `start` up to `end` out of the buffer.
    fn copy_range(&self, start: usize, end: usize) -> (r: Vec<u8>)
        requires
            start <= end <= self@.len(),
        ensures
            r@ == self@.subrange(start as int, end as int),
    {
        let mut line: Vec<u8> = Vec::with_capacity(end - start);
        let mut at: usize = start;
        while at < end
            invariant
                start <= at <= end <= self@.len(),
                line@ == self@.subrange(start as int, at as int),
            decreases end - at,
        {
            line.push(self.buffer[at]);
            at = at + 1;
            assert(self@.subrange(start as int, at as int) =~= self@.subrange(
                start as int,
                at - 1,
            ).push(self@[at - 1]));
        }
        line
    }

    /// Appends the bytes of a frame to the buffer.
    fn fill(&mut self, frame: Bytes)
        ensures
            final(self)@ == old(self)@ + bytes_of(frame),
    {
        let ghost all = bytes_of(frame);
        let mut frame = frame;
        while has_remaining(&frame)
            invariant
                self@ + bytes_of(frame) == old(self)@ + all,
            ensures
                self@ == old(self)@ + all,
            decreases bytes_of(frame).len(),
        {
            let ghost kept = self@;
            let ghost left = bytes_of(frame);
            let part = chunk(&frame);
            let count: usize = part.len();
            let mut at: usize = 0;
            while at < count
                invariant
                    at <= count == part@.len(),
                    self@ == kept + part@.take(at as int),
                decreases count - at,
            {
                self.buffer.push_back(part[at]);
                at = at + 1;
                assert(part@.take(at as int) =~= part@.take(at - 1).push(part@[at - 1]));
                assert(self@ =~= kept + part@.take(at as int));
            }
            assert(part@.take(count as int) =~= left);
            advance(&mut frame, count);
            assert(self@ + bytes_of(frame) =~= kept + left);
        }
        assert(self@ + bytes_of(frame) =~= self@);
    }

    /// Takes the next frame and returns the lines that it completes, each without its
    /// `\n`; what follows the last `\n` is kept.
    pub fn append(&mut self, frame: Bytes) -> (r: Vec<Vec<u8>>)
        requires
            old(self).well_formed(),
        ensures
            lines_of(r@) == complete_lines(old(self)@ + bytes_of(frame)),
            final(self)@ == partial_line(old(self)@ + bytes_of(frame)),
            final(self).well_formed(),
    {
        let old_len: usize = self.buffer.len();
        let ghost head = self@;
        let ghost whole = self@ + bytes_of(frame);
        self.fill(frame);
        let total: usize = self.buffer.len();
        let mut lines: Vec<Vec<u8>> = Vec::new();
        let mut processed: usize = 0;
        let mut pos: usize = old_len;
        proof {
            law_unterminated_stream(head);
            assert(whole.take(old_len as int) =~= head);
            assert(lines_of(lines@) =~= Seq::<Seq<u8>>::empty());
            assert(whole.subrange(0, old_len as int) =~= head);
        }
        while pos < total
            invariant
                processed <= pos <= total,
                total == whole.len(),
                self@ == whole,
                lines_of(lines@) == complete_lines(whole.take(pos as int)),
                whole.subrange(processed as int, pos as int) == partial_line(
                    whole.take(pos as int),
                ),
            decreases total - pos,
        {
            let ghost seen = whole.take(pos as int);
            let ghost lines_before = lines@;
            assert(whole.take(pos + 1).drop_last() =~= seen);
            assert(whole.take(pos + 1).last() == whole[pos as int]);
            if self.buffer[pos] == NEWLINE {
                let line = self.copy_range(processed, pos);
                lines.push(line);
                processed = pos + 1;
                assert(lines_of(lines@) =~= lines_of(lines_before).push(line@));
                assert(whole.subrange(processed as int, pos + 1) =~= Seq::<u8>::empty());
            } else {
                assert(whole.subrange(processed as int, pos + 1) =~= whole.subrange(
                    processed as int,
                    pos as int,
                ).push(whole[pos as int]));
            }
            pos = pos + 1;
        }
        assert(whole.take(pos as int) =~= whole);
        let rest = self.buffer.split_off(processed);
        self.buffer = rest;
        proof {
            law_lines_hold_no_newline(whole);
        }
        lines
    }
}

/// A frame gives the lines that it completes, all of them, in order and whatever their length,
/// each without its `\n`, and keeps the rest.
pub proof fn law_frame_gives_its_lines(
    buffer: &mut LineBuffer,
    frame: Bytes,
    r: Vec<Vec<u8>>,
    lines: Seq<Seq<u8>>,
    rest: Seq<u8>,
)
    requires
        call_ensures(LineBuffer::append, (buffer, frame), r),
        forall|i: int| 0 <= i < lines.len() ==> !(#[trigger] lines[i]).contains(10u8),
        !rest.contains(10u8),
        old(buffer)@ + bytes_of(frame) == terminated(lines) + rest,
    ensures
        final(buffer)@ == rest,
        r@.len() == lines.len(),
        forall|i: int| 0 <= i < lines.len() ==> (#[trigger] r@[i])@ == lines[i],
{
    law_terminated_lines_read_back(lines);
    law_lines_across_frames(terminated(lines), rest);
    assert(Seq::<u8>::empty() + rest =~= rest);
    law_unterminated_stream(rest);
    assert(complete_lines(old(buffer)@ + bytes_of(frame)) =~= lines);
    assert forall|i: int| 0 <= i < lines.len() implies (#[trigger] r@[i])@ == lines[i] by {
        assert(lines_of(r@)[i] == r@[i]@);
    }
}

} // verus!
