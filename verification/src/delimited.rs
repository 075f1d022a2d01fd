//! Frames delimited by null characters.

use crate::outside::{decode_frame, decode_last_frame, encode_frame, undelimited};
use crate::shared::{ReceiveError, MAX_FRAME_LENGTH};
use vstd::prelude::*;
use vstd::string::*;
use vstd::utf8::*;

verus! {

/// The byte that ends a frame.
pub const DELIMITER: u8 = 0;

/// Transport stream with JSON frames delimited by null characters: what is read is fed in, and
/// frames come out.
pub struct Delimited {
    buffer: Vec<u8>,
    discarding: bool,
    readable: bool,
    ended: bool,
    failed: bool,
}

/// The state of a `Delimited` stream.
pub struct Wire {
    /// Bytes that were read and not handed out.
    pub buffer: Seq<u8>,
    /// Whether the frame at the front was too long, so that the rest of it is to be skipped.
    pub discarding: bool,
    /// Whether the buffer may still hold a frame.
    pub readable: bool,
    /// Whether the last read found the end of the stream.
    pub ended: bool,
    /// Whether an error was the last thing that came out.
    pub failed: bool,
}

/// What comes out of a stream.
#[derive(Debug, PartialEq, Eq)]
pub enum Reception {
    /// A frame, without its delimiter.
    Frame(Vec<u8>),
    /// More bytes have to be read first.
    More,
    /// The stream is at its end.
    Ended,
}

/// What comes out of a stream, as a value.
pub enum ReceptionView {
    Frame(Seq<u8>),
    More,
    Ended,
    TooLong,
}

/// A reception or its failure, as a value.
pub open spec fn reception_view(reception: Result<Reception, ReceiveError>) -> ReceptionView {
    match reception {
        Ok(Reception::Frame(frame)) => ReceptionView::Frame(frame@),
        Ok(Reception::More) => ReceptionView::More,
        Ok(Reception::Ended) => ReceptionView::Ended,
        Err(_) => ReceptionView::TooLong,
    }
}

/// The number of bytes before the first delimiter.
pub open spec fn run(bytes: Seq<u8>) -> int {
    undelimited(bytes, DELIMITER) as int
}

/// What follows the first delimiter.
pub open spec fn after_delimiter(bytes: Seq<u8>) -> Seq<u8> {
    if run(bytes) < bytes.len() {
        bytes.skip(run(bytes) + 1)
    } else {
        Seq::empty()
    }
}

/// The bytes of a text and the delimiter.
pub open spec fn framed(payload: Seq<u8>) -> Seq<u8> {
    payload.push(DELIMITER)
}

impl Wire {
    /// A stream of which nothing was read.
    pub open spec fn fresh() -> Wire {
        Wire {
            buffer: Seq::empty(),
            discarding: false,
            readable: false,
            ended: false,
            failed: false,
        }
    }

    /// The stream after a read gave `chunk`, which is empty at the end of the stream.
    pub open spec fn fed(self, chunk: Seq<u8>) -> Wire {
        if chunk.len() == 0 && self.ended {
            self
        } else {
            Wire {
                buffer: self.buffer + chunk,
                ended: chunk.len() == 0,
                readable: true,
                ..self
            }
        }
    }

    /// The stream after a read failed.
    pub open spec fn broken(self) -> Wire {
        Wire { failed: true, ..self }
    }

    /// The stream with what is left of a frame that was too long skipped, as far as it was read.
    pub open spec fn resumed(self) -> Wire {
        if self.discarding {
            Wire {
                buffer: after_delimiter(self.buffer),
                discarding: run(self.buffer) == self.buffer.len(),
                ..self
            }
        } else {
            self
        }
    }

    /// What comes out of the stream next, and the stream after that.
    pub open spec fn next(self) -> (Wire, ReceptionView) {
        let wire = self.resumed();
        let length = run(wire.buffer);
        if self.failed {
            (Wire { failed: false, readable: false, ..self }, ReceptionView::Ended)
        } else if !self.readable {
            (self, ReceptionView::More)
        } else if length > MAX_FRAME_LENGTH {
            (Wire { discarding: true, failed: true, ..wire }, ReceptionView::TooLong)
        } else if length < wire.buffer.len() || (wire.ended && length > 0) {
            (
                Wire { buffer: after_delimiter(wire.buffer), ..wire },
                ReceptionView::Frame(wire.buffer.take(length)),
            )
        } else {
            (
                Wire { readable: false, ..wire },
                if wire.ended {
                    ReceptionView::Ended
                } else {
                    ReceptionView::More
                },
            )
        }
    }
}

impl View for Delimited {
    type V = Wire;

    closed spec fn view(&self) -> Wire {
        Wire {
            buffer: self.buffer@,
            discarding: self.discarding,
            readable: self.readable,
            ended: self.ended,
            failed: self.failed,
        }
    }
}

impl Delimited {
    /// Construct a new delimited stream.
    pub fn new() -> (stream: Delimited)
        ensures
            stream@ == Wire::fresh(),
    {
        Delimited {
            buffer: Vec::new(),
            discarding: false,
            readable: false,
            ended: false,
            failed: false,
        }
    }

    /// Takes in what a read gave, which is nothing at the end of the stream. `false` where the
    /// stream had ended before and still has nothing.
    pub fn feed(&mut self, chunk: &[u8]) -> (fresh: bool)
        ensures
            final(self)@ == old(self)@.fed(chunk@),
            fresh == !(chunk@.len() == 0 && old(self)@.ended),
    {
        if chunk.len() == 0 && self.ended {
            return false;
        }
        self.buffer.extend_from_slice(chunk);
        assert(self.buffer@ =~= old(self)@.buffer + chunk@);
        self.ended = chunk.len() == 0;
        self.readable = true;
        true
    }

    /// Takes note that a read failed, and gives the error to report. What was read before is kept,
    /// and the stream is at its end for the next reception.
    pub fn fail(&mut self) -> (error: ReceiveError)
        ensures
            final(self)@ == old(self)@.broken(),
            error == ReceiveError::Frame,
    {
        self.failed = true;
        ReceiveError::Frame
    }

    /// Skips what is left of a frame that was too long.
    fn resume(&mut self)
        ensures
            final(self)@ == old(self)@.resumed(),
    {
        if self.discarding {
            let mut i: usize = 0;
            proof {
                lemma_run_start(self.buffer@);
            }
            while i < self.buffer.len() && self.buffer[i] != DELIMITER
                invariant
                    i <= self.buffer@.len(),
                    *self == *old(self),
                    run(self.buffer@) == i + run(self.buffer@.skip(i as int)),
                decreases self.buffer@.len() - i,
            {
                assert(self.buffer@.skip(i as int).skip(1) =~= self.buffer@.skip(i + 1));
                i = i + 1;
            }
            assert(run(self.buffer@) == i);
            let mut rest: Vec<u8> = Vec::new();
            if i < self.buffer.len() {
                let mut j: usize = i + 1;
                while j < self.buffer.len()
                    invariant
                        i < j <= self.buffer@.len(),
                        *self == *old(self),
                        rest@ == self.buffer@.subrange(i + 1, j as int),
                    decreases self.buffer@.len() - j,
                {
                    rest.push(self.buffer[j]);
                    assert(rest@ =~= self.buffer@.subrange(i + 1, j + 1));
                    j = j + 1;
                }
                assert(rest@ =~= self.buffer@.skip(i + 1));
                self.discarding = false;
            }
            assert(rest@ =~= after_delimiter(self.buffer@));
            self.buffer = rest;
        }
    }

    /// Read the next null-delimited JSON instruction from a stream.
    pub fn recv(&mut self) -> (reception: Result<Reception, ReceiveError>)
        ensures
            final(self)@ == old(self)@.next().0,
            reception_view(reception) == old(self)@.next().1,
            reception matches Err(error) ==> error == ReceiveError::Frame,
    {
        if self.failed {
            self.failed = false;
            self.readable = false;
            return Ok(Reception::Ended);
        }
        if !self.readable {
            return Ok(Reception::More);
        }
        self.resume();
        let ghost wire = self@;
        proof {
            lemma_run_bounds(wire.buffer);
            lemma_run_bounds(old(self)@.buffer);
        }
        let frame = if self.ended {
            decode_last_frame(&mut self.buffer, DELIMITER, MAX_FRAME_LENGTH)
        } else {
            decode_frame(&mut self.buffer, DELIMITER, MAX_FRAME_LENGTH)
        };
        match frame {
            Ok(Some(frame)) => Ok(Reception::Frame(frame)),
            Ok(None) => {
                self.readable = false;
                if self.ended {
                    Ok(Reception::Ended)
                } else {
                    Ok(Reception::More)
                }
            },
            Err(_) => {
                self.discarding = true;
                self.failed = true;
                Err(ReceiveError::Frame)
            },
        }
    }

    /// The bytes that send a null-terminated JSON instruction on a stream.
    pub fn send(&self, text: &str) -> (bytes: Vec<u8>)
        ensures
            bytes@ == framed(text.spec_bytes()),
    {
        encode_frame(text, DELIMITER).unwrap()
    }

    /// Consume this object, returning the bytes that were read and not handed out.
    pub fn into_parts(self) -> (buffer: Vec<u8>)
        ensures
            buffer@ == self@.buffer,
    {
        self.buffer
    }
}

proof fn lemma_run_start(bytes: Seq<u8>)
    ensures
        run(bytes) == run(bytes.skip(0)),
{
    assert(bytes.skip(0) =~= bytes);
}

/// The run ends at the end or at the first delimiter, and no delimiter stands in it.
proof fn lemma_run_bounds(bytes: Seq<u8>)
    ensures
        0 <= run(bytes) <= bytes.len(),
        run(bytes) < bytes.len() ==> bytes[run(bytes)] == DELIMITER,
        forall|i: int| 0 <= i < run(bytes) ==> bytes[i] != DELIMITER,
    decreases bytes.len(),
{
    if bytes.len() > 0 && bytes[0] != DELIMITER {
        let rest = bytes.skip(1);
        lemma_run_bounds(rest);
        assert forall|i: int| 0 <= i < run(bytes) implies bytes[i] != DELIMITER by {
            if i > 0 {
                assert(bytes[i] == rest[i - 1]);
            }
        }
        if run(bytes) < bytes.len() {
            assert(bytes[run(bytes)] == rest[run(rest)]);
        }
    }
}

/// The bytes of text have a null byte only where the text has a null character.
proof fn lemma_text_has_no_delimiter(text: Seq<char>)
    requires
        forall|i: int| 0 <= i < text.len() ==> text[i] as u32 != 0,
    ensures
        forall|i: int| 0 <= i < encode_utf8(text).len() ==> encode_utf8(text)[i] != DELIMITER,
    decreases text.len(),
{
    if text.len() > 0 {
        let scalar = text[0] as u32;
        lemma_text_has_no_delimiter(text.drop_first());
        assert(has_width_1_encoding(scalar) && scalar != 0 ==> leading_byte_width_1(scalar) != 0)
            by (bit_vector);
        assert(leading_byte_width_2(scalar) != 0) by (bit_vector);
        assert(leading_byte_width_3(scalar) != 0) by (bit_vector);
        assert(leading_byte_width_4(scalar) != 0) by (bit_vector);
        assert(last_continuation_byte(scalar) != 0) by (bit_vector);
        assert(second_last_continuation_byte(scalar) != 0) by (bit_vector);
        assert(third_last_continuation_byte(scalar) != 0) by (bit_vector);
        let head = encode_scalar(scalar);
        let tail = encode_utf8(text.drop_first());
        assert forall|i: int| 0 <= i < encode_utf8(text).len() implies encode_utf8(text)[i]
            != DELIMITER by {
            if i < head.len() {
                assert(encode_utf8(text)[i] == head[i]);
            } else {
                assert(encode_utf8(text)[i] == tail[i - head.len()]);
            }
        }
    }
}

/// A prefix without a delimiter, before one, is the run.
proof fn lemma_run_of_framed(payload: Seq<u8>, rest: Seq<u8>)
    requires
        forall|i: int| 0 <= i < payload.len() ==> payload[i] != DELIMITER,
    ensures
        run(framed(payload) + rest) == payload.len(),
{
    let bytes = framed(payload) + rest;
    lemma_run_bounds(bytes);
    assert(bytes[payload.len() as int] == DELIMITER);
    if run(bytes) < payload.len() {
        assert(bytes[run(bytes)] == payload[run(bytes)]);
    }
}

/// What follows does not change a run that a delimiter ends, nor shorten one that none ends.
proof fn lemma_run_of_concatenation(a: Seq<u8>, b: Seq<u8>)
    ensures
        run(a) < a.len() ==> run(a + b) == run(a),
        run(a) == a.len() ==> run(a + b) >= run(a),
{
    lemma_run_bounds(a);
    lemma_run_bounds(a + b);
    if run(a + b) < run(a) {
        assert((a + b)[run(a + b)] == a[run(a + b)]);
    }
    if run(a) < a.len() {
        assert((a + b)[run(a)] == a[run(a)]);
    }
}

/// A text that is sent and read comes out as a frame of its own bytes, and what was read behind it
/// stays: for every text without null characters whose bytes fit in a frame.
pub proof fn sent_text_is_received(wire: Wire, text: &str, rest: Seq<u8>)
    requires
        wire.readable,
        !wire.failed,
        !wire.discarding,
        wire.buffer == framed(text.spec_bytes()) + rest,
        forall|i: int| 0 <= i < text@.len() ==> text@[i] as u32 != 0,
        text.spec_bytes().len() <= MAX_FRAME_LENGTH,
    ensures
        wire.next() == (
            Wire { buffer: rest, ..wire },
            ReceptionView::Frame(text.spec_bytes()),
        ),
{
    let payload = text.spec_bytes();
    lemma_text_has_no_delimiter(text@);
    lemma_run_of_framed(payload, rest);
    assert(wire.buffer.take(payload.len() as int) =~= payload);
    assert(wire.buffer.skip(payload.len() as int + 1) =~= rest);
}

/// Where no delimiter stands among the first bytes, one more than a frame may have, the frame is
/// refused without waiting for its end, and the stream then ends.
pub proof fn long_frame_is_refused(wire: Wire)
    requires
        wire.readable,
        !wire.failed,
        !wire.discarding,
        wire.buffer.len() > MAX_FRAME_LENGTH,
        forall|i: int| 0 <= i <= MAX_FRAME_LENGTH ==> wire.buffer[i] != DELIMITER,
    ensures
        wire.next().1 == ReceptionView::TooLong,
        wire.next().0.next().1 == ReceptionView::Ended,
{
    lemma_run_bounds(wire.buffer);
}

/// After a failure the stream is at its end once, whether a read failed or a frame was too long;
/// then more bytes have to be read first. A failed read loses nothing of what was read.
pub proof fn stream_ends_after_a_failure(wire: Wire)
    ensures
        wire.broken().next() == (
            Wire { failed: false, readable: false, ..wire },
            ReceptionView::Ended,
        ),
        wire.broken().next().0.next() == (wire.broken().next().0, ReceptionView::More),
        wire.next().1 is TooLong ==> {
            let ended = wire.next().0.next();
            ended.1 is Ended && ended.0.next() == (ended.0, ReceptionView::More)
        },
{
}

/// No frame that comes out is longer than the limit, or holds a delimiter.
pub proof fn received_frames_are_bounded(wire: Wire)
    ensures
        wire.next().1 matches ReceptionView::Frame(frame) ==> frame.len() <= MAX_FRAME_LENGTH
            && forall|i: int| 0 <= i < frame.len() ==> frame[i] != DELIMITER,
{
    lemma_run_bounds(wire.resumed().buffer);
}

/// A frame that is whole comes out the same whatever was read behind it.
pub proof fn whole_frame_needs_no_more(wire: Wire, more: Seq<u8>)
    requires
        wire.next().1 is Frame,
        !wire.ended,
        more.len() > 0,
    ensures
        wire.fed(more).next().1 == wire.next().1,
        wire.fed(more).next().0 == wire.next().0.fed(more),
{
    let fed = wire.fed(more);
    lemma_run_bounds(wire.buffer);
    lemma_run_bounds(wire.resumed().buffer);
    lemma_run_of_concatenation(wire.buffer, more);
    assert(after_delimiter(wire.buffer) + more =~= after_delimiter(wire.buffer + more)) by {
        if run(wire.buffer) < wire.buffer.len() {
            assert((wire.buffer + more).skip(run(wire.buffer) + 1) =~= wire.buffer.skip(
                run(wire.buffer) + 1,
            ) + more);
        }
    }
    let buffer = wire.resumed().buffer;
    assert(fed.resumed().buffer =~= buffer + more);
    lemma_run_of_concatenation(buffer, more);
    assert((buffer + more).take(run(buffer)) =~= buffer.take(run(buffer)));
    assert((buffer + more).skip(run(buffer) + 1) =~= buffer.skip(run(buffer) + 1) + more);
}

/// The frames that bytes hold, what is left behind the last of them, and whether a frame that is
/// too long stands there.
pub open spec fn frames(bytes: Seq<u8>) -> (Seq<Seq<u8>>, Seq<u8>, bool)
    decreases bytes.len(),
{
    if run(bytes) > MAX_FRAME_LENGTH {
        (Seq::empty(), bytes, true)
    } else if 0 <= run(bytes) < bytes.len() {
        let rest = frames(bytes.skip(run(bytes) + 1));
        (seq![bytes.take(run(bytes))] + rest.0, rest.1, rest.2)
    } else {
        (Seq::empty(), bytes, false)
    }
}

/// A stream hands out the first of the frames that it holds, and then holds the others; where it
/// holds none, it asks for more, or refuses what is too long.
pub proof fn stream_hands_out_its_frames(wire: Wire)
    requires
        wire.readable,
        !wire.failed,
        !wire.discarding,
        !wire.ended,
    ensures
        match wire.next().1 {
            ReceptionView::Frame(frame) => {
                let before = frames(wire.buffer);
                let after = frames(wire.next().0.buffer);
                before.0 == seq![frame] + after.0 && before.1 == after.1 && before.2 == after.2
            },
            ReceptionView::More => frames(wire.buffer) == (
                Seq::<Seq<u8>>::empty(),
                wire.buffer,
                false,
            ),
            ReceptionView::TooLong => frames(wire.buffer) == (
                Seq::<Seq<u8>>::empty(),
                wire.buffer,
                true,
            ),
            ReceptionView::Ended => false,
        },
{
    lemma_run_bounds(wire.buffer);
}

/// How the stream is cut into reads does not matter: the frames of two pieces are those of the
/// first, and then those of what it left together with the second.
pub proof fn reads_may_be_cut_anywhere(a: Seq<u8>, b: Seq<u8>)
    ensures
        ({
            let first = frames(a);
            let second = frames(first.1 + b);
            let whole = frames(a + b);
            whole.0 == first.0 + second.0 && whole.1 == second.1 && whole.2 == second.2
        }),
    decreases a.len(),
{
    lemma_run_bounds(a);
    lemma_run_of_concatenation(a, b);
    if run(a) > MAX_FRAME_LENGTH {
        assert(frames(a + b).0 =~= Seq::empty());
    } else if run(a) < a.len() {
        let rest = a.skip(run(a) + 1);
        reads_may_be_cut_anywhere(rest, b);
        assert((a + b).take(run(a)) =~= a.take(run(a)));
        assert((a + b).skip(run(a) + 1) =~= rest + b);
        assert(frames(a + b).0 =~= frames(a).0 + frames(frames(a).1 + b).0);
    } else {
        assert(frames(a).0 + frames(a + b).0 =~= frames(a + b).0);
    }
}

/// The bytes that send payloads one after another.
pub open spec fn all_framed(payloads: Seq<Seq<u8>>) -> Seq<u8>
    decreases payloads.len(),
{
    if payloads.len() == 0 {
        Seq::empty()
    } else {
        framed(payloads[0]) + all_framed(payloads.skip(1))
    }
}

/// Payloads that are sent one after another are the frames that are received, in their order.
pub proof fn sent_payloads_are_received(payloads: Seq<Seq<u8>>)
    requires
        forall|i: int| 0 <= i < payloads.len() ==> (#[trigger] payloads[i]).len()
            <= MAX_FRAME_LENGTH,
        forall|i: int, j: int|
            0 <= i < payloads.len() && 0 <= j < payloads[i].len() ==> (#[trigger] payloads[i][j])
                != DELIMITER,
    ensures
        frames(all_framed(payloads)) == (payloads, Seq::<u8>::empty(), false),
    decreases payloads.len(),
{
    let bytes = all_framed(payloads);
    if payloads.len() == 0 {
        assert(payloads =~= Seq::empty());
    } else {
        let first = payloads[0];
        let others = payloads.skip(1);
        assert forall|i: int, j: int|
            0 <= i < others.len() && 0 <= j < others[i].len() implies (#[trigger] others[i][j])
            != DELIMITER by {
            assert(others[i][j] == payloads[i + 1][j]);
        }
        sent_payloads_are_received(others);
        assert forall|j: int| 0 <= j < first.len() implies first[j] != DELIMITER by {
            assert(payloads[0][j] != DELIMITER);
        }
        lemma_run_of_framed(first, all_framed(others));
        assert(bytes.take(first.len() as int) =~= first);
        assert(bytes.skip(first.len() as int + 1) =~= all_framed(others));
        assert(seq![first] + others =~= payloads);
    }
}

/// What a stream that has ended hands out: the frames that it holds, one after another; then what
/// is left behind the last of them, if anything is, as a frame of its own; then the end.
pub proof fn ended_stream_hands_out_the_rest(wire: Wire)
    requires
        wire.readable,
        !wire.failed,
        !wire.discarding,
        wire.ended,
    ensures
        match wire.next().1 {
            ReceptionView::Frame(frame) => {
                let before = frames(wire.buffer);
                let after = frames(wire.next().0.buffer);
                if before.0.len() > 0 {
                    before.0 == seq![frame] + after.0 && before.1 == after.1 && before.2
                        == after.2
                } else {
                    before.1 == frame && frame.len() > 0 && wire.next().0.buffer.len() == 0
                }
            },
            ReceptionView::Ended => wire.buffer.len() == 0,
            ReceptionView::TooLong => frames(wire.buffer) == (
                Seq::<Seq<u8>>::empty(),
                wire.buffer,
                true,
            ),
            ReceptionView::More => false,
        },
{
    lemma_run_bounds(wire.buffer);
    if run(wire.buffer) == wire.buffer.len() {
        assert(wire.buffer.take(run(wire.buffer)) =~= wire.buffer);
    }
}

/// What one call that waits for a message gives, where reads give `chunks` one after another: the
/// stream is fed until something comes out. With it, the stream and the reads that are left.
pub open spec fn awaited(wire: Wire, chunks: Seq<Seq<u8>>) -> (Wire, Seq<Seq<u8>>, ReceptionView)
    decreases chunks.len(),
{
    let (after, reception) = wire.next();
    if reception is More && chunks.len() > 0 {
        awaited(after.fed(chunks[0]), chunks.skip(1))
    } else {
        (after, chunks, reception)
    }
}

/// What `count` such calls give, one after another.
pub open spec fn all_awaited(wire: Wire, chunks: Seq<Seq<u8>>, count: nat) -> Seq<ReceptionView>
    decreases count,
{
    if count == 0 {
        Seq::empty()
    } else {
        let (after, rest, reception) = awaited(wire, chunks);
        seq![reception] + all_awaited(after, rest, (count - 1) as nat)
    }
}

/// The bytes of reads, one after another.
pub open spec fn joined(chunks: Seq<Seq<u8>>) -> Seq<u8>
    decreases chunks.len(),
{
    if chunks.len() == 0 {
        Seq::empty()
    } else {
        chunks[0] + joined(chunks.skip(1))
    }
}

/// Whether payloads fit in frames and can be told apart.
pub open spec fn can_be_framed(payloads: Seq<Seq<u8>>) -> bool {
    forall|i: int|
        0 <= i < payloads.len() ==> is_payload(#[trigger] payloads[i])
}

/// Whether a payload fits in a frame and holds no delimiter.
pub open spec fn is_payload(payload: Seq<u8>) -> bool {
    payload.len() <= MAX_FRAME_LENGTH && forall|j: int|
        0 <= j < payload.len() ==> payload[j] != DELIMITER
}

/// Whether a stream, together with reads that are still to come, holds payloads that were sent, and
/// nothing else.
spec fn holds(wire: Wire, chunks: Seq<Seq<u8>>, payloads: Seq<Seq<u8>>) -> bool {
    &&& !wire.failed && !wire.discarding && !wire.ended
    &&& !wire.readable ==> run(wire.buffer) == wire.buffer.len()
    &&& forall|i: int| 0 <= i < chunks.len() ==> (#[trigger] chunks[i]).len() > 0
    &&& wire.buffer + joined(chunks) == all_framed(payloads)
    &&& can_be_framed(payloads)
}

/// A read that is not empty changes nothing of what a stream holds together with the reads to come.
proof fn lemma_holds_when_fed(wire: Wire, chunks: Seq<Seq<u8>>, payloads: Seq<Seq<u8>>)
    requires
        holds(wire, chunks, payloads),
        chunks.len() > 0,
    ensures
        holds(wire.fed(chunks[0]), chunks.skip(1), payloads),
{
    let rest = chunks.skip(1);
    assert(chunks[0].len() > 0);
    assert((wire.buffer + chunks[0]) + joined(rest) =~= wire.buffer + joined(chunks));
    assert forall|i: int| 0 <= i < rest.len() implies (#[trigger] rest[i]).len() > 0 by {
        assert(chunks[i + 1].len() > 0);
    }
}

/// Where the stream holds payloads, the next call gives the first of them.
proof fn lemma_first_is_awaited(wire: Wire, chunks: Seq<Seq<u8>>, payloads: Seq<Seq<u8>>)
    requires
        holds(wire, chunks, payloads),
        payloads.len() > 0,
    ensures
        ({
            let end = Seq::<u8>::empty();
            let (after, rest, reception) = awaited(wire, chunks.push(end));
            &&& reception == ReceptionView::Frame(payloads[0])
            &&& rest.len() > 0
            &&& rest.last() == end
            &&& holds(after, rest.drop_last(), payloads.skip(1))
        }),
    decreases chunks.len(),
{
    let end = Seq::<u8>::empty();
    let first = payloads[0];
    let others = payloads.skip(1);
    let all = chunks.push(end);
    assert(is_payload(first));
    assert(can_be_framed(others)) by {
        assert forall|i: int| 0 <= i < others.len() implies is_payload(#[trigger] others[i]) by {
            assert(is_payload(payloads[i + 1]));
        }
    }
    lemma_run_of_framed(first, all_framed(others));
    lemma_run_bounds(wire.buffer);
    lemma_run_of_concatenation(wire.buffer, joined(chunks));
    if wire.readable && run(wire.buffer) < wire.buffer.len() {
        let length = first.len() as int;
        let whole = wire.buffer + joined(chunks);
        assert(wire.buffer.take(length) =~= first) by {
            assert(whole.take(length) =~= first);
            assert(whole.take(length) =~= wire.buffer.take(length));
        }
        assert(wire.buffer.skip(length + 1) + joined(chunks) =~= all_framed(others)) by {
            assert(whole.skip(length + 1) =~= all_framed(others));
            assert(whole.skip(length + 1) =~= wire.buffer.skip(length + 1) + joined(chunks));
        }
        assert(all.drop_last() =~= chunks);
        assert(awaited(wire, all).0.buffer =~= wire.buffer.skip(length + 1));
    } else {
        let after = wire.next().0;
        assert(wire.next().1 is More);
        if chunks.len() == 0 {
            assert(wire.buffer + joined(chunks) =~= wire.buffer);
        }
        assert(holds(after, chunks, payloads));
        lemma_holds_when_fed(after, chunks, payloads);
        lemma_first_is_awaited(after.fed(chunks[0]), chunks.skip(1), payloads);
        assert(all.skip(1) =~= chunks.skip(1).push(end));
        assert(all[0] == chunks[0]);
    }
}

/// Where nothing is left, the next call gives the end.
proof fn lemma_end_is_awaited(wire: Wire, chunks: Seq<Seq<u8>>)
    requires
        holds(wire, chunks, Seq::empty()),
    ensures
        awaited(wire, chunks.push(Seq::<u8>::empty())).2 is Ended,
{
    let end = Seq::<u8>::empty();
    let all = chunks.push(end);
    assert((wire.buffer + joined(chunks)).len() == 0);
    if chunks.len() > 0 {
        assert(chunks[0].len() > 0);
    }
    assert(all =~= seq![end]);
    let after = wire.next().0;
    assert(wire.next().1 is More);
    let ended = after.fed(end);
    assert(ended.buffer =~= Seq::empty());
    assert(ended.next().1 is Ended);
    assert(all[0] == end);
    assert(awaited(ended, all.skip(1)).2 is Ended);
}

proof fn lemma_all_are_awaited(wire: Wire, chunks: Seq<Seq<u8>>, payloads: Seq<Seq<u8>>)
    requires
        holds(wire, chunks, payloads),
    ensures
        all_awaited(wire, chunks.push(Seq::<u8>::empty()), payloads.len() + 1) == Seq::new(
            payloads.len(),
            |i: int| ReceptionView::Frame(payloads[i]),
        ).push(ReceptionView::Ended),
    decreases payloads.len(),
{
    let all = chunks.push(Seq::<u8>::empty());
    let expected = Seq::new(payloads.len(), |i: int| ReceptionView::Frame(payloads[i])).push(
        ReceptionView::Ended,
    );
    let (after, rest, reception) = awaited(wire, all);
    if payloads.len() == 0 {
        assert(payloads =~= Seq::empty());
        lemma_end_is_awaited(wire, chunks);
        assert(all_awaited(after, rest, 0) =~= Seq::empty());
        assert(all_awaited(wire, all, 1) =~= seq![reception]);
        assert(expected =~= seq![ReceptionView::Ended]);
    } else {
        let others = payloads.skip(1);
        lemma_first_is_awaited(wire, chunks, payloads);
        lemma_all_are_awaited(after, rest.drop_last(), others);
        assert(rest.drop_last().push(Seq::<u8>::empty()) =~= rest);
        let tail = Seq::new(others.len(), |i: int| ReceptionView::Frame(others[i])).push(
            ReceptionView::Ended,
        );
        assert(expected =~= seq![ReceptionView::Frame(payloads[0])] + tail);
    }
}

/// Texts that are sent on one end, which is then closed, come out on the other: each call that
/// waits for a message gives the next of them, in their order, and the call after the last gives
/// the end. Nothing is lost, merged or split, whatever the pieces in which the bytes are read: for
/// all texts without null characters whose bytes fit in a frame.
pub proof fn sent_texts_arrive(texts: Seq<&str>, chunks: Seq<Seq<u8>>)
    requires
        forall|i: int, j: int|
            0 <= i < texts.len() && 0 <= j < texts[i]@.len() ==> (#[trigger] texts[i]@[j]) as u32
                != 0,
        forall|i: int|
            0 <= i < texts.len() ==> (#[trigger] texts[i]).spec_bytes().len() <= MAX_FRAME_LENGTH,
        forall|i: int| 0 <= i < chunks.len() ==> (#[trigger] chunks[i]).len() > 0,
        joined(chunks) == all_framed(Seq::new(texts.len(), |i: int| texts[i].spec_bytes())),
    ensures
        all_awaited(Wire::fresh(), chunks.push(Seq::<u8>::empty()), texts.len() + 1) == Seq::new(
            texts.len(),
            |i: int| ReceptionView::Frame(texts[i].spec_bytes()),
        ).push(ReceptionView::Ended),
{
    let payloads = Seq::new(texts.len(), |i: int| texts[i].spec_bytes());
    assert forall|i: int| 0 <= i < payloads.len() implies is_payload(#[trigger] payloads[i]) by {
        assert(texts[i].spec_bytes().len() <= MAX_FRAME_LENGTH);
        assert forall|j: int| 0 <= j < texts[i]@.len() implies texts[i]@[j] as u32 != 0 by {
            assert(texts[i]@[j] as u32 != 0);
        }
        lemma_text_has_no_delimiter(texts[i]@);
    }
    let wire = Wire::fresh();
    assert(wire.buffer + joined(chunks) =~= joined(chunks));
    lemma_all_are_awaited(wire, chunks, payloads);
    assert(Seq::new(payloads.len(), |i: int| ReceptionView::Frame(payloads[i])) =~= Seq::new(
        texts.len(),
        |i: int| ReceptionView::Frame(texts[i].spec_bytes()),
    ));
}

/// A read adds its bytes behind those that were read, and loses none. An empty read is the end of
/// the stream, and a second one changes nothing.
pub proof fn reads_are_kept(wire: Wire, chunk: Seq<u8>)
    ensures
        chunk.len() > 0 ==> wire.fed(chunk) == (Wire {
            buffer: wire.buffer + chunk,
            ended: false,
            readable: true,
            ..wire
        }),
        chunk.len() == 0 && !wire.ended ==> wire.fed(chunk) == (Wire {
            ended: true,
            readable: true,
            ..wire
        }),
        chunk.len() == 0 && wire.ended ==> wire.fed(chunk) == wire,
{
    if chunk.len() == 0 {
        assert(wire.buffer + chunk =~= wire.buffer);
    }
}

/// Where nothing new was read, nothing comes out.
pub proof fn nothing_comes_of_nothing(wire: Wire)
    requires
        !wire.failed,
        !wire.readable,
    ensures
        wire.next() == (wire, ReceptionView::More),
{
}

/// A whole frame at the front comes out without its delimiter, whether the stream has ended or not,
/// and leaves what stands behind it.
pub proof fn whole_frames_come_out(wire: Wire, payload: Seq<u8>, rest: Seq<u8>)
    requires
        wire.readable,
        !wire.failed,
        !wire.discarding,
        payload.len() <= 512,
        forall|i: int| 0 <= i < payload.len() ==> payload[i] != 0,
        wire.buffer == payload + seq![0u8] + rest,
    ensures
        wire.next() == (Wire { buffer: rest, ..wire }, ReceptionView::Frame(payload)),
{
    assert(payload + seq![0u8] =~= framed(payload));
    lemma_run_of_framed(payload, rest);
    assert(wire.buffer.take(payload.len() as int) =~= payload);
    assert(wire.buffer.skip(payload.len() as int + 1) =~= rest);
}

/// Bytes that no delimiter follows wait for more as long as the stream goes on. At its end they are
/// a frame; where there are none, that is the end.
pub proof fn unfinished_frames_wait_for_the_end(wire: Wire)
    requires
        wire.readable,
        !wire.failed,
        !wire.discarding,
        wire.buffer.len() <= 512,
        forall|i: int| 0 <= i < wire.buffer.len() ==> wire.buffer[i] != 0,
    ensures
        !wire.ended ==> wire.next() == (Wire { readable: false, ..wire }, ReceptionView::More),
        wire.ended && wire.buffer.len() > 0 ==> wire.next() == (
            Wire { buffer: Seq::empty(), ..wire },
            ReceptionView::Frame(wire.buffer),
        ),
        wire.ended && wire.buffer.len() == 0 ==> wire.next() == (
            Wire { readable: false, ..wire },
            ReceptionView::Ended,
        ),
{
    lemma_run_bounds(wire.buffer);
    assert(wire.buffer.take(wire.buffer.len() as int) =~= wire.buffer);
}

/// A frame of which more than 512 bytes were read is refused; the bytes stay, and are skipped with
/// the rest of the frame.
pub proof fn frames_may_have_512_bytes(wire: Wire)
    requires
        wire.readable,
        !wire.failed,
        !wire.discarding,
        wire.buffer.len() > 512,
        forall|i: int| 0 <= i <= 512 ==> wire.buffer[i] != 0,
    ensures
        wire.next() == (
            Wire { discarding: true, failed: true, ..wire },
            ReceptionView::TooLong,
        ),
{
    lemma_run_bounds(wire.buffer);
}

/// The rest of a frame that was too long is skipped up to its delimiter, and what stands behind it
/// comes out as if the frame had not been there.
pub proof fn rest_of_a_long_frame_is_skipped(wire: Wire, rest: Seq<u8>, more: Seq<u8>)
    requires
        wire.readable,
        !wire.failed,
        wire.discarding,
        forall|i: int| 0 <= i < rest.len() ==> rest[i] != 0,
        wire.buffer == rest + seq![0u8] + more,
    ensures
        wire.next() == (Wire { buffer: more, discarding: false, ..wire }).next(),
{
    assert(rest + seq![0u8] =~= framed(rest));
    lemma_run_of_framed(rest, more);
    assert(wire.buffer.skip(rest.len() as int + 1) =~= more);
}

/// As long as the delimiter of a frame that was too long was not read, everything is skipped.
pub proof fn long_frame_is_skipped_to_its_end(wire: Wire)
    requires
        wire.readable,
        !wire.failed,
        wire.discarding,
        forall|i: int| 0 <= i < wire.buffer.len() ==> wire.buffer[i] != 0,
    ensures
        wire.next() == (
            Wire { buffer: Seq::empty(), readable: false, ..wire },
            if wire.ended {
                ReceptionView::Ended
            } else {
                ReceptionView::More
            },
        ),
{
    lemma_run_bounds(wire.buffer);
}

/// A payload is sent as its bytes and a null byte, and what comes out is seen as what it is.
pub proof fn frames_are_seen_as_they_are(payload: Seq<u8>, frame: Vec<u8>, error: ReceiveError)
    ensures
        framed(payload) == payload + seq![0u8],
        reception_view(Ok(Reception::Frame(frame))) == ReceptionView::Frame(frame@),
        reception_view(Ok(Reception::More)) is More,
        reception_view(Ok(Reception::Ended)) is Ended,
        reception_view(Err(error)) is TooLong,
        Wire::fresh() == (Wire {
            buffer: Seq::empty(),
            discarding: false,
            readable: false,
            ended: false,
            failed: false,
        }),
{
    assert(framed(payload) =~= payload + seq![0u8]);
}

} // verus!
