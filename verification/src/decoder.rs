//! The chunk decoder.
//!
//! A streamed body arrives in chunks that are cut anywhere: a line may span
//! two chunks, and one chunk may hold many lines. The decoder keeps the
//! unfinished end of the body, reads each line once it is complete, and hands
//! out the events in the order of the lines. What it reports depends on the
//! bytes of the body alone, not on where they were cut.

use vstd::prelude::*;
use crate::error::RequestError;
use crate::event::{decode_line, read_line, EventView, Reading, StreamEvent};
use crate::frame::NEWLINE;

verus! {

/// Where a decoder stands.
#[derive(Clone, Copy, Debug, PartialEq, Eq, Structural)]
pub enum Status {
    /// Still reading.
    Open,
    /// The end of the response was reported.
    Done,
    /// A line could not be read; nothing after it is looked at.
    Failed(RequestError),
}

/// The events of a body so far, and where that leaves the decoder.
pub ghost struct Trace {
    pub events: Seq<EventView>,
    pub status: Status,
}

/// The trace before anything was read.
pub open spec fn start() -> Trace {
    Trace { events: Seq::empty(), status: Status::Open }
}

/// The lines of `bytes` that a newline has ended, in order, without the
/// newlines.
pub open spec fn complete_lines(bytes: Seq<u8>) -> Seq<Seq<u8>>
    decreases bytes.len(),
{
    if bytes.len() == 0 {
        Seq::empty()
    } else if bytes.last() == NEWLINE {
        complete_lines(bytes.drop_last()).push(pending(bytes.drop_last()))
    } else {
        complete_lines(bytes.drop_last())
    }
}

/// What follows the last newline of `bytes`: the line that is still open.
pub open spec fn pending(bytes: Seq<u8>) -> Seq<u8>
    decreases bytes.len(),
{
    if bytes.len() == 0 {
        Seq::empty()
    } else if bytes.last() == NEWLINE {
        Seq::empty()
    } else {
        pending(bytes.drop_last()).push(bytes.last())
    }
}

/// The trace after one more line. A trace that is no longer open stays as it
/// is; otherwise the line adds its event, if it has one, and the event `End`
/// or a failure closes the trace.
pub open spec fn advance(trace: Trace, line: Seq<u8>) -> Trace {
    if trace.status != Status::Open {
        trace
    } else {
        match read_line(line) {
            Reading::Nothing => trace,
            Reading::Event(event) => Trace {
                events: trace.events.push(event),
                status: if event is End {
                    Status::Done
                } else {
                    Status::Open
                },
            },
            Reading::Failure(error) => Trace { events: trace.events, status: Status::Failed(error) },
        }
    }
}

/// The trace after `lines`, one after the other.
pub open spec fn play(trace: Trace, lines: Seq<Seq<u8>>) -> Trace
    decreases lines.len(),
{
    if lines.len() == 0 {
        trace
    } else {
        advance(play(trace, lines.drop_last()), lines.last())
    }
}

/// The trace of a body of which `bytes` have arrived.
pub open spec fn decode(bytes: Seq<u8>) -> Trace {
    play(start(), complete_lines(bytes))
}

/// A [`ChunkDecoder`] in specifications.
pub ghost struct DecoderView {
    /// The unfinished last line.
    pub carry: Seq<u8>,
    pub status: Status,
}

impl DecoderView {
    /// The carried line holds no newline, and a decoder that is no longer
    /// open carries nothing.
    pub open spec fn wf(self) -> bool {
        &&& forall|i: int| 0 <= i < self.carry.len() ==> self.carry[i] != NEWLINE
        &&& self.status != Status::Open ==> self.carry.len() == 0
    }

    /// A decoder that has read nothing.
    pub open spec fn fresh() -> DecoderView {
        DecoderView { carry: Seq::empty(), status: Status::Open }
    }

    /// The decoder after `chunk`, and the events that the chunk completes.
    pub open spec fn fed(self, chunk: Seq<u8>) -> (DecoderView, Seq<EventView>) {
        if self.status != Status::Open {
            (self, Seq::empty())
        } else {
            let trace = decode(self.carry + chunk);
            let carry = if trace.status == Status::Open {
                pending(self.carry + chunk)
            } else {
                Seq::empty()
            };
            (DecoderView { carry, status: trace.status }, trace.events)
        }
    }

    /// The decoder at the end of the body, and the last events. An open
    /// decoder reads what it carries as a last line and, unless that line
    /// closes it, reports `End`.
    pub open spec fn finished(self) -> (DecoderView, Seq<EventView>) {
        if self.status != Status::Open {
            (self, Seq::empty())
        } else {
            let last = advance(start(), self.carry);
            let trace = if last.status == Status::Open {
                Trace { events: last.events.push(EventView::End), status: Status::Done }
            } else {
                last
            };
            (DecoderView { carry: Seq::empty(), status: trace.status }, trace.events)
        }
    }

    /// The decoder after each of `chunks` in turn, and all the events that
    /// they complete.
    pub open spec fn fed_all(self, chunks: Seq<Seq<u8>>) -> (DecoderView, Seq<EventView>)
        decreases chunks.len(),
    {
        if chunks.len() == 0 {
            (self, Seq::empty())
        } else {
            let (middle, earlier) = self.fed_all(chunks.drop_last());
            let (end, later) = middle.fed(chunks.last());
            (end, earlier + later)
        }
    }

    /// The failure that the decoder stopped at, if it did.
    pub open spec fn failure(self) -> Option<RequestError> {
        match self.status {
            Status::Failed(error) => Some(error),
            _ => None,
        }
    }
}

/// The events that one call of the decoder hands out, and the failure that
/// stopped it, if one did. The events before a failure are still reported.
#[derive(Debug, PartialEq, Eq)]
pub struct Batch {
    pub events: Vec<StreamEvent>,
    pub error: Option<RequestError>,
}

/// The views of `events`, in order.
pub open spec fn views(events: Seq<StreamEvent>) -> Seq<EventView> {
    events.map_values(|event: StreamEvent| event@)
}

/// Decodes a streamed body chunk by chunk.
pub struct ChunkDecoder {
    carry: Vec<u8>,
    status: Status,
}

impl View for ChunkDecoder {
    type V = DecoderView;

    closed spec fn view(&self) -> DecoderView {
        DecoderView { carry: self.carry@, status: self.status }
    }
}

impl ChunkDecoder {
    /// A decoder at the start of a body.
    pub fn new() -> (decoder: ChunkDecoder)
        ensures
            decoder@ == DecoderView::fresh(),
            decoder@.wf(),
    {
        ChunkDecoder { carry: Vec::new(), status: Status::Open }
    }

    /// Where the decoder stands.
    pub fn status(&self) -> (status: Status)
        ensures
            status == self@.status,
    {
        self.status
    }

    fn is_open(&self) -> (open: bool)
        ensures
            open == (self@.status == Status::Open),
    {
        match self.status {
            Status::Open => true,
            _ => false,
        }
    }

    fn failure(&self) -> (error: Option<RequestError>)
        ensures
            error == self@.failure(),
    {
        match self.status {
            Status::Failed(error) => Some(error),
            _ => None,
        }
    }

    /// Reads the carried line and moves on: the line's event, if any, goes to
    /// `events`, and the carry is emptied.
    fn take_line(&mut self, events: &mut Vec<StreamEvent>)
        requires
            old(self)@.status == Status::Open,
        ensures
            ({
                let before = Trace { events: views(old(events)@), status: Status::Open };
                let after = advance(before, old(self)@.carry);
                &&& views(final(events)@) == after.events
                &&& final(self)@.status == after.status
                &&& final(self)@.carry == Seq::<u8>::empty()
            }),
    {
        let reading = decode_line(self.carry.as_slice());
        self.carry.clear();
        match reading {
            Ok(None) => {},
            Ok(Some(event)) => {
                match event {
                    StreamEvent::End => {
                        self.status = Status::Done;
                    },
                    _ => {},
                }
                events.push(event);
                assert(views(events@) =~= views(old(events)@).push(event@));
            },
            Err(error) => {
                self.status = Status::Failed(error);
            },
        }
    }

    /// Takes in the next chunk of the body and hands out the events of the
    /// lines that it completes.
    pub fn feed(&mut self, chunk: &[u8]) -> (batch: Batch)
        requires
            old(self)@.wf(),
        ensures
            final(self)@.wf(),
            final(self)@ == old(self)@.fed(chunk@).0,
            views(batch.events@) == old(self)@.fed(chunk@).1,
            batch.error == final(self)@.failure(),
    {
        let mut events: Vec<StreamEvent> = Vec::new();
        let ghost before = self@.carry;
        let mut i: usize = 0;
        proof {
            assert(views(events@) =~= Seq::<EventView>::empty());
            assert(before + chunk@.take(0) =~= before);
            if self@.status == Status::Open {
                lemma_no_newline(before);
            }
        }
        while i < chunk.len() && self.is_open()
            invariant
                i <= chunk@.len(),
                self@.wf(),
                old(self)@.wf(),
                before == old(self)@.carry,
                old(self)@.status != Status::Open ==> self@ == old(self)@ && events@.len() == 0,
                old(self)@.status == Status::Open ==> {
                    let trace = decode(before + chunk@.take(i as int));
                    &&& views(events@) == trace.events
                    &&& self@.status == trace.status
                    &&& trace.status == Status::Open ==> self@.carry == pending(
                        before + chunk@.take(i as int),
                    )
                },
            decreases chunk@.len() - i,
        {
            let byte = chunk[i];
            proof {
                let seen = before + chunk@.take(i as int);
                let next = before + chunk@.take(i + 1);
                assert(next =~= seen.push(byte));
                assert(next.drop_last() =~= seen);
                if byte == NEWLINE {
                    assert(complete_lines(next).drop_last() =~= complete_lines(seen));
                }
            }
            if byte == NEWLINE {
                self.take_line(&mut events);
            } else {
                self.carry.push(byte);
            }
            i += 1;
        }
        proof {
            if old(self)@.status == Status::Open {
                let seen = before + chunk@.take(i as int);
                assert(seen + chunk@.skip(i as int) =~= before + chunk@);
                if i < chunk@.len() {
                    lemma_closed_stays(seen, chunk@.skip(i as int));
                } else {
                    assert(chunk@.take(i as int) =~= chunk@);
                }
                assert(self@.carry =~= old(self)@.fed(chunk@).0.carry);
            }
        }
        Batch { events, error: self.failure() }
    }

    /// Ends the body: an open decoder reads what it still carries as a last
    /// line and reports `End`, unless that line already closed it.
    pub fn finish(&mut self) -> (batch: Batch)
        requires
            old(self)@.wf(),
        ensures
            final(self)@.wf(),
            final(self)@ == old(self)@.finished().0,
            views(batch.events@) == old(self)@.finished().1,
            batch.error == final(self)@.failure(),
    {
        let mut events: Vec<StreamEvent> = Vec::new();
        assert(views(events@) =~= Seq::<EventView>::empty());
        if self.is_open() {
            self.take_line(&mut events);
            if self.is_open() {
                events.push(StreamEvent::End);
                self.status = Status::Done;
                assert(views(events@) =~= advance(start(), old(self)@.carry).events.push(
                    EventView::End,
                ));
            }
        }
        Batch { events, error: self.failure() }
    }
}

/// Bytes without a newline hold no complete line and are all pending.
pub proof fn lemma_no_newline(bytes: Seq<u8>)
    requires
        forall|i: int| 0 <= i < bytes.len() ==> bytes[i] != NEWLINE,
    ensures
        complete_lines(bytes) == Seq::<Seq<u8>>::empty(),
        pending(bytes) == bytes,
    decreases bytes.len(),
{
    if bytes.len() > 0 {
        lemma_no_newline(bytes.drop_last());
        assert(bytes.drop_last().push(bytes.last()) =~= bytes);
    }
}

/// What is pending holds no newline.
pub proof fn lemma_pending_has_no_newline(bytes: Seq<u8>)
    ensures
        forall|i: int| 0 <= i < pending(bytes).len() ==> pending(bytes)[i] != NEWLINE,
    decreases bytes.len(),
{
    if bytes.len() > 0 {
        lemma_pending_has_no_newline(bytes.drop_last());
        let shorter = pending(bytes.drop_last());
        assert forall|i: int| 0 <= i < pending(bytes).len() implies pending(bytes)[i]
            != NEWLINE by {
            if bytes.last() != NEWLINE && i < shorter.len() {
                assert(pending(bytes)[i] == shorter[i]);
            }
        }
    }
}

/// A trace that is no longer open is not changed by further lines.
pub proof fn lemma_play_closed(trace: Trace, lines: Seq<Seq<u8>>)
    requires
        trace.status != Status::Open,
    ensures
        play(trace, lines) == trace,
    decreases lines.len(),
{
    if lines.len() > 0 {
        lemma_play_closed(trace, lines.drop_last());
    }
}

/// Once the end was reported, or a line failed, nothing that follows in the
/// body changes what was decoded.
pub proof fn lemma_closed_stays(bytes: Seq<u8>, more: Seq<u8>)
    requires
        decode(bytes).status != Status::Open,
    ensures
        decode(bytes + more) == decode(bytes),
    decreases more.len(),
{
    if more.len() == 0 {
        assert(bytes + more =~= bytes);
    } else {
        let all = bytes + more;
        assert(all.drop_last() =~= bytes + more.drop_last());
        lemma_closed_stays(bytes, more.drop_last());
        if all.last() == NEWLINE {
            assert(complete_lines(all).drop_last() =~= complete_lines(all.drop_last()));
        }
    }
}

/// All the events of a body that is `bytes` from its start to its end.
pub open spec fn whole_stream(bytes: Seq<u8>) -> Seq<EventView> {
    let (decoder, events) = DecoderView::fresh().fed(bytes);
    events + decoder.finished().1
}

/// Where a body ends after `bytes`.
pub open spec fn whole_stream_status(bytes: Seq<u8>) -> Status {
    DecoderView::fresh().fed(bytes).0.finished().0.status
}

/// The bytes of `chunks`, one chunk after the other.
pub open spec fn joined(chunks: Seq<Seq<u8>>) -> Seq<u8>
    decreases chunks.len(),
{
    if chunks.len() == 0 {
        Seq::empty()
    } else {
        joined(chunks.drop_last()) + chunks.last()
    }
}

/// The lines of `head + tail` are the lines of `head`, then those of what
/// `head` left pending followed by `tail`.
pub proof fn lemma_lines_split(head: Seq<u8>, tail: Seq<u8>)
    ensures
        complete_lines(head + tail) == complete_lines(head) + complete_lines(pending(head) + tail),
        pending(head + tail) == pending(pending(head) + tail),
    decreases tail.len(),
{
    if tail.len() == 0 {
        assert(head + tail =~= head);
        assert(pending(head) + tail =~= pending(head));
        lemma_pending_has_no_newline(head);
        lemma_no_newline(pending(head));
        assert(complete_lines(head) + Seq::<Seq<u8>>::empty() =~= complete_lines(head));
    } else {
        let all = head + tail;
        let short = pending(head) + tail;
        assert(all.drop_last() =~= head + tail.drop_last());
        assert(short.drop_last() =~= pending(head) + tail.drop_last());
        lemma_lines_split(head, tail.drop_last());
        if tail.last() == NEWLINE {
            assert(complete_lines(all) =~= complete_lines(head) + complete_lines(short));
        }
    }
}

/// Lines may be played in two runs.
pub proof fn lemma_play_append(trace: Trace, first: Seq<Seq<u8>>, second: Seq<Seq<u8>>)
    ensures
        play(trace, first + second) == play(play(trace, first), second),
    decreases second.len(),
{
    if second.len() == 0 {
        assert(first + second =~= first);
    } else {
        assert((first + second).drop_last() =~= first + second.drop_last());
        lemma_play_append(trace, first, second.drop_last());
    }
}

/// Playing lines onto an open trace adds the events of the lines to it.
pub proof fn lemma_play_onto_open(trace: Trace, lines: Seq<Seq<u8>>)
    requires
        trace.status == Status::Open,
    ensures
        play(trace, lines).events == trace.events + play(start(), lines).events,
        play(trace, lines).status == play(start(), lines).status,
    decreases lines.len(),
{
    if lines.len() == 0 {
        assert(trace.events + start().events =~= trace.events);
    } else {
        lemma_play_onto_open(trace, lines.drop_last());
        let before = play(trace, lines.drop_last());
        let alone = play(start(), lines.drop_last());
        assert(play(trace, lines).events =~= trace.events + play(start(), lines).events);
    }
}

/// Feeding two chunks one after the other is feeding them as one.
pub proof fn lemma_fed_twice(decoder: DecoderView, first: Seq<u8>, second: Seq<u8>)
    requires
        decoder.wf(),
    ensures
        decoder.fed(first).0.wf(),
        decoder.fed(first).0.fed(second).0 == decoder.fed(first + second).0,
        decoder.fed(first).1 + decoder.fed(first).0.fed(second).1 == decoder.fed(
            first + second,
        ).1,
{
    let (middle, earlier) = decoder.fed(first);
    let (end, later) = middle.fed(second);
    if decoder.status != Status::Open {
        assert(earlier + later =~= Seq::<EventView>::empty());
    } else {
        let head = decoder.carry + first;
        assert(decoder.carry + (first + second) =~= head + second);
        lemma_pending_has_no_newline(head);
        if decode(head).status != Status::Open {
            lemma_closed_stays(head, second);
            assert(earlier + later =~= earlier);
        } else {
            lemma_lines_split(head, second);
            let rest = complete_lines(pending(head) + second);
            lemma_play_append(start(), complete_lines(head), rest);
            lemma_play_onto_open(decode(head), rest);
        }
    }
}

/// Feeding chunks in turn is feeding their bytes as one chunk.
pub proof fn lemma_fed_all_is_fed_joined(decoder: DecoderView, chunks: Seq<Seq<u8>>)
    requires
        decoder.wf(),
    ensures
        decoder.fed_all(chunks) == decoder.fed(joined(chunks)),
        decoder.fed_all(chunks).0.wf(),
    decreases chunks.len(),
{
    if chunks.len() == 0 {
        if decoder.status == Status::Open {
            assert(decoder.carry + joined(chunks) =~= decoder.carry);
            lemma_no_newline(decoder.carry);
        }
        assert(decoder.fed(joined(chunks)).0 == decoder);
    } else {
        lemma_fed_all_is_fed_joined(decoder, chunks.drop_last());
        lemma_fed_twice(decoder, joined(chunks.drop_last()), chunks.last());
        lemma_fed_twice(decoder, joined(chunks), Seq::empty());
    }
}

/// Where a body is cut into chunks makes no difference: two ways of cutting
/// the same bytes leave the decoder in the same state, with the same events
/// reported in the same order.
pub proof fn lemma_chunking_is_invisible(
    decoder: DecoderView,
    one: Seq<Seq<u8>>,
    other: Seq<Seq<u8>>,
)
    requires
        decoder.wf(),
        joined(one) == joined(other),
    ensures
        decoder.fed_all(one) == decoder.fed_all(other),
        decoder.fed_all(one).0.finished() == decoder.fed_all(other).0.finished(),
{
    lemma_fed_all_is_fed_joined(decoder, one);
    lemma_fed_all_is_fed_joined(decoder, other);
}

/// The event `End` is reported at most once, as the last event, and exactly
/// when the end mark was read.
pub proof fn lemma_end_comes_last(trace: Trace, lines: Seq<Seq<u8>>)
    requires
        trace.status == Status::Open,
        forall|i: int| 0 <= i < trace.events.len() ==> !(trace.events[i] is End),
    ensures
        ({
            let after = play(trace, lines);
            &&& forall|i: int| 0 <= i < after.events.len() - 1 ==> !(after.events[i] is End)
            &&& after.status == Status::Done <==> after.events.len() > 0
                && after.events.last() is End
        }),
    decreases lines.len(),
{
    if lines.len() > 0 {
        lemma_end_comes_last(trace, lines.drop_last());
    }
}

/// The end mark ends the events at once. When a chunk brings the decoder to
/// `Done`, `End` is the last event reported, the bytes that follow the mark
/// in the same chunk add nothing, and neither does any later chunk.
pub proof fn lemma_done_ends_the_stream(decoder: DecoderView, chunk: Seq<u8>, more: Seq<u8>)
    requires
        decoder.wf(),
        decoder.status == Status::Open,
        decoder.fed(chunk).0.status == Status::Done,
    ensures
        decoder.fed(chunk).1.len() > 0,
        decoder.fed(chunk).1.last() is End,
        decoder.fed(chunk + more) == decoder.fed(chunk),
        decoder.fed(chunk).0.fed(more) == (decoder.fed(chunk).0, Seq::<EventView>::empty()),
        decoder.fed(chunk).0.finished() == (decoder.fed(chunk).0, Seq::<EventView>::empty()),
{
    lemma_end_comes_last(start(), complete_lines(decoder.carry + chunk));
    lemma_closed_stays(decoder.carry + chunk, more);
    assert(decoder.carry + (chunk + more) =~= (decoder.carry + chunk) + more);
}

/// A body that was read to its end without failure reports `End` once, as
/// its last event; one that failed does not report it at all.
pub proof fn lemma_whole_stream_ends_once(bytes: Seq<u8>)
    ensures
        ({
            let events = whole_stream(bytes);
            &&& whole_stream_status(bytes) != Status::Open
            &&& forall|i: int| 0 <= i < events.len() - 1 ==> !(events[i] is End)
            &&& whole_stream_status(bytes) == Status::Done <==> events.len() > 0
                && events.last() is End
        }),
{
    let (decoder, events) = DecoderView::fresh().fed(bytes);
    let all = whole_stream(bytes);
    assert(Seq::<u8>::empty() + bytes =~= bytes);
    lemma_end_comes_last(start(), complete_lines(bytes));
    if decoder.status != Status::Open {
        assert(all =~= events);
    } else {
        let last = advance(start(), decoder.carry);
        assert forall|i: int| 0 <= i < all.len() - 1 implies !(all[i] is End) by {
            if i < events.len() {
                assert(all[i] == events[i]);
            }
        }
    }
}

} // verus!
