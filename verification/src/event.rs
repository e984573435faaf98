//! The events of a streamed response.

use vstd::prelude::*;
use crate::error::RequestError;
use crate::frame::{classify, frame_of, is_space, lemma_trim_start_skips, Frame, FrameView};
use crate::json::{document, parse, Json};
use crate::transcript::{Message, MessageView, Sender};
use crate::wire::{decode_first_choice, first_choice};

verus! {

/// One step of a streamed response.
#[derive(Debug, PartialEq, Eq)]
pub enum StreamEvent {
    /// A further piece of the model's reasoning.
    ReasoningDelta(String),
    /// A further piece of the answer, and who it is from.
    ContentDelta(String, Sender),
    /// The response is complete.
    End,
}

/// A [`StreamEvent`] in specifications.
pub ghost enum EventView {
    ReasoningDelta(Seq<char>),
    ContentDelta(Seq<char>, Sender),
    End,
}

impl View for StreamEvent {
    type V = EventView;

    open spec fn view(&self) -> EventView {
        match self {
            StreamEvent::ReasoningDelta(text) => EventView::ReasoningDelta(text@),
            StreamEvent::ContentDelta(text, sender) => EventView::ContentDelta(text@, *sender),
            StreamEvent::End => EventView::End,
        }
    }
}

/// What reading one payload comes to.
pub ghost enum Reading {
    /// Nothing to report: a heartbeat, or a frame that only names the role.
    Nothing,
    /// One event.
    Event(EventView),
    /// The payload is not what the protocol asks for.
    Failure(RequestError),
}

/// The event that a delta carries: its reasoning where that is not empty,
/// else its content where that is not empty, else none.
pub open spec fn event_of(delta: MessageView) -> Option<EventView> {
    if delta.reasoning is Some && delta.reasoning->0.len() > 0 {
        Some(EventView::ReasoningDelta(delta.reasoning->0))
    } else if delta.content.len() > 0 {
        Some(EventView::ContentDelta(delta.content, delta.role))
    } else {
        None
    }
}

/// What a parsed frame comes to.
pub open spec fn read_frame(doc: Json) -> Reading {
    match first_choice(doc, "delta"@) {
        Err(error) => Reading::Failure(error),
        Ok(delta) => match event_of(delta) {
            Some(event) => Reading::Event(event),
            None => Reading::Nothing,
        },
    }
}

/// What a payload comes to: it has to be a JSON document, which is then read
/// as a frame.
pub open spec fn read_payload(payload: Seq<u8>) -> Reading {
    match document(payload) {
        None => Reading::Failure(RequestError::Malformed),
        Some(doc) => read_frame(doc),
    }
}

/// What a line comes to: filler is nothing, the end mark is the event `End`,
/// and a payload is read as JSON.
pub open spec fn read_line(line: Seq<u8>) -> Reading {
    match frame_of(line) {
        FrameView::Blank => Reading::Nothing,
        FrameView::Done => Reading::Event(EventView::End),
        FrameView::Payload(payload) => read_payload(payload),
    }
}

/// A line of nothing but whitespace reports nothing.
pub proof fn lemma_blank_line_is_silent(line: Seq<u8>)
    requires
        forall|i: int| 0 <= i < line.len() ==> is_space(line[i]),
    ensures
        read_line(line) == Reading::Nothing,
{
    lemma_trim_start_skips(line, line.len() as int);
    assert(line.skip(line.len() as int) =~= Seq::<u8>::empty());
}

/// A delta without content and without reasoning, as a heartbeat or a frame
/// that only names the role is, reports nothing, whoever it is from.
pub proof fn lemma_empty_delta_is_silent(delta: MessageView)
    requires
        delta.content.len() == 0,
        delta.reasoning is None || delta.reasoning->0.len() == 0,
    ensures
        event_of(delta) is None,
{
}

/// No payload reports the end: only the end mark does.
pub proof fn lemma_payload_never_ends(payload: Seq<u8>)
    ensures
        read_payload(payload) != Reading::Event(EventView::End),
{
}

/// Whether `res` says in executable terms what `reading` says.
pub open spec fn tells(res: Result<Option<StreamEvent>, RequestError>, reading: Reading) -> bool {
    match res {
        Ok(Some(event)) => reading == Reading::Event(event@),
        Ok(None) => reading == Reading::Nothing,
        Err(error) => reading == Reading::Failure(error),
    }
}

/// The event that a delta carries, if any.
pub fn delta_event(delta: Message) -> (res: Option<StreamEvent>)
    ensures
        match res {
            Some(event) => event_of(delta@) == Some(event@),
            None => event_of(delta@) is None,
        },
{
    let Message { role, content, reasoning } = delta;
    match reasoning {
        Some(text) => {
            if !text.as_str().is_empty() {
                return Some(StreamEvent::ReasoningDelta(text));
            }
        },
        None => {},
    }
    if !content.as_str().is_empty() {
        Some(StreamEvent::ContentDelta(content, role))
    } else {
        None
    }
}

/// Reads a parsed frame.
pub fn decode_delta(doc: &Json) -> (res: Result<Option<StreamEvent>, RequestError>)
    ensures
        tells(res, read_frame(*doc)),
{
    match decode_first_choice(doc, "delta") {
        Ok(delta) => Ok(delta_event(delta)),
        Err(error) => Err(error),
    }
}

/// Reads a payload.
pub fn decode_payload(payload: &[u8]) -> (res: Result<Option<StreamEvent>, RequestError>)
    ensures
        tells(res, read_payload(payload@)),
{
    match parse(payload) {
        Some(doc) => decode_delta(&doc),
        None => Err(RequestError::Malformed),
    }
}

/// Reads one line of a streamed body.
pub fn decode_line(line: &[u8]) -> (res: Result<Option<StreamEvent>, RequestError>)
    ensures
        tells(res, read_line(line@)),
{
    match classify(line) {
        Frame::Blank => Ok(None),
        Frame::Done => Ok(Some(StreamEvent::End)),
        Frame::Payload(payload) => decode_payload(payload.as_slice()),
    }
}

} // verus!
