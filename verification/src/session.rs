//! The stream session: from events to what is shown and what is kept.
//!
//! A session starts before anything has arrived, may pass through a phase of
//! reasoning, then takes in the answer, and is done when the response ends.
//! It never goes back. Each event says what to show at once, and the end of
//! the response yields the assistant's message for the transcript.

use vstd::prelude::*;
use crate::event::{EventView, StreamEvent};
use crate::transcript::{plain_message, Message, MessageView, Sender, Transcript};

verus! {

/// How far a session has come.
#[derive(Clone, Copy, Debug, PartialEq, Eq, Structural)]
pub enum SessionPhase {
    NotStarted,
    Thinking,
    Answering,
    Done,
}

impl SessionPhase {
    /// The place of a phase in the order in which phases follow each other.
    pub open spec fn rank(self) -> nat {
        match self {
            SessionPhase::NotStarted => 0,
            SessionPhase::Thinking => 1,
            SessionPhase::Answering => 2,
            SessionPhase::Done => 3,
        }
    }
}

/// One thing to put on the display, in the order given.
#[derive(Debug, PartialEq, Eq)]
pub enum Render {
    /// The heading of the reasoning, shown once.
    ThinkingHeader,
    /// The heading of the answer, shown once.
    AnswerHeader,
    /// The end of a line.
    LineBreak,
    /// A piece of reasoning.
    Reasoning(String),
    /// A piece of the answer.
    Answer(String),
}

/// A [`Render`] in specifications.
pub ghost enum RenderView {
    ThinkingHeader,
    AnswerHeader,
    LineBreak,
    Reasoning(Seq<char>),
    Answer(Seq<char>),
}

impl View for Render {
    type V = RenderView;

    open spec fn view(&self) -> RenderView {
        match self {
            Render::ThinkingHeader => RenderView::ThinkingHeader,
            Render::AnswerHeader => RenderView::AnswerHeader,
            Render::LineBreak => RenderView::LineBreak,
            Render::Reasoning(text) => RenderView::Reasoning(text@),
            Render::Answer(text) => RenderView::Answer(text@),
        }
    }
}

impl RenderView {
    /// Whether this belongs to the reasoning.
    pub open spec fn of_reasoning(self) -> bool {
        self is ThinkingHeader || self is Reasoning
    }

    /// Whether this belongs to the answer.
    pub open spec fn of_answer(self) -> bool {
        self is AnswerHeader || self is Answer
    }
}

/// The views of `output`, in order.
pub open spec fn shown(output: Seq<Render>) -> Seq<RenderView> {
    output.map_values(|render: Render| render@)
}

/// A [`StreamSession`] in specifications.
pub ghost struct SessionView {
    pub phase: SessionPhase,
    /// The reasoning so far. It is shown and then dropped.
    pub reasoning: Seq<char>,
    /// The answer so far.
    pub answer: Seq<char>,
    /// Who the answer is from.
    pub role: Sender,
}

/// What a session makes of events: where it stands after them, what it shows,
/// and the messages that it adds to the transcript.
pub ghost struct Course {
    pub end: SessionView,
    pub output: Seq<RenderView>,
    pub replies: Seq<MessageView>,
}

impl SessionView {
    /// A session before the first event.
    pub open spec fn fresh() -> SessionView {
        SessionView {
            phase: SessionPhase::NotStarted,
            reasoning: Seq::empty(),
            answer: Seq::empty(),
            role: Sender::Assistant,
        }
    }

    /// What one event does.
    ///
    /// Reasoning counts before the answer has begun: the first piece shows
    /// the heading, and each piece is shown and added to the reasoning. Later
    /// reasoning is passed over. Content begins the answer where it has not
    /// begun, with a line break after reasoning and then the heading; each
    /// piece is shown, added to the answer, and its sender noted. The end
    /// shows a line break and yields the answer as a message. A session that
    /// is done passes over every event.
    pub open spec fn step(self, event: EventView) -> Course {
        match (self.phase, event) {
            (SessionPhase::NotStarted, EventView::ReasoningDelta(text)) => Course {
                end: SessionView {
                    phase: SessionPhase::Thinking,
                    reasoning: self.reasoning + text,
                    ..self
                },
                output: seq![RenderView::ThinkingHeader, RenderView::Reasoning(text)],
                replies: Seq::empty(),
            },
            (SessionPhase::Thinking, EventView::ReasoningDelta(text)) => Course {
                end: SessionView { reasoning: self.reasoning + text, ..self },
                output: seq![RenderView::Reasoning(text)],
                replies: Seq::empty(),
            },
            (SessionPhase::NotStarted, EventView::ContentDelta(text, sender)) => Course {
                end: SessionView {
                    phase: SessionPhase::Answering,
                    answer: self.answer + text,
                    role: sender,
                    ..self
                },
                output: seq![RenderView::AnswerHeader, RenderView::Answer(text)],
                replies: Seq::empty(),
            },
            (SessionPhase::Thinking, EventView::ContentDelta(text, sender)) => Course {
                end: SessionView {
                    phase: SessionPhase::Answering,
                    answer: self.answer + text,
                    role: sender,
                    ..self
                },
                output: seq![
                    RenderView::LineBreak,
                    RenderView::AnswerHeader,
                    RenderView::Answer(text),
                ],
                replies: Seq::empty(),
            },
            (SessionPhase::Answering, EventView::ContentDelta(text, sender)) => Course {
                end: SessionView { answer: self.answer + text, role: sender, ..self },
                output: seq![RenderView::Answer(text)],
                replies: Seq::empty(),
            },
            (SessionPhase::Done, _) => self.idle(),
            (_, EventView::End) => Course {
                end: SessionView { phase: SessionPhase::Done, ..self },
                output: seq![RenderView::LineBreak],
                replies: seq![plain_message(self.role, self.answer)],
            },
            (SessionPhase::Answering, EventView::ReasoningDelta(_)) => self.idle(),
        }
    }

    /// Nothing happens.
    pub open spec fn idle(self) -> Course {
        Course { end: self, output: Seq::empty(), replies: Seq::empty() }
    }

    /// What `events` do, one after the other.
    pub open spec fn run(self, events: Seq<EventView>) -> Course
        decreases events.len(),
    {
        if events.len() == 0 {
            self.idle()
        } else {
            let earlier = self.run(events.drop_last());
            let last = earlier.end.step(events.last());
            Course {
                end: last.end,
                output: earlier.output + last.output,
                replies: earlier.replies + last.replies,
            }
        }
    }
}

/// Follows one streamed response.
pub struct StreamSession {
    phase: SessionPhase,
    reasoning: String,
    answer: String,
    role: Sender,
}

impl View for StreamSession {
    type V = SessionView;

    closed spec fn view(&self) -> SessionView {
        SessionView {
            phase: self.phase,
            reasoning: self.reasoning@,
            answer: self.answer@,
            role: self.role,
        }
    }
}

impl StreamSession {
    /// A session before the first event.
    pub fn new() -> (session: StreamSession)
        ensures
            session@ == SessionView::fresh(),
    {
        StreamSession {
            phase: SessionPhase::NotStarted,
            reasoning: String::new(),
            answer: String::new(),
            role: Sender::Assistant,
        }
    }

    /// How far the session has come.
    pub fn phase(&self) -> (phase: SessionPhase)
        ensures
            phase == self@.phase,
    {
        self.phase
    }

    /// The answer so far.
    pub fn answer(&self) -> (text: &String)
        ensures
            text@ == self@.answer,
    {
        &self.answer
    }

    /// The reasoning so far.
    pub fn reasoning(&self) -> (text: &String)
        ensures
            text@ == self@.reasoning,
    {
        &self.reasoning
    }

    /// Takes in one event: returns what to show now, and at the end of the
    /// response adds the assistant's message to `transcript`.
    pub fn step(&mut self, event: &StreamEvent, transcript: &mut Transcript) -> (output: Vec<Render>)
        ensures
            final(self)@ == old(self)@.step(event@).end,
            shown(output@) == old(self)@.step(event@).output,
            final(transcript)@ == old(transcript)@ + old(self)@.step(event@).replies,
    {
        let mut output: Vec<Render> = Vec::new();
        let ghost course = self@.step(event@);
        match self.phase {
            SessionPhase::Done => {},
            _ => {
                match event {
                    StreamEvent::ReasoningDelta(text) => {
                        match self.phase {
                            SessionPhase::NotStarted => {
                                output.push(Render::ThinkingHeader);
                                self.phase = SessionPhase::Thinking;
                                self.reasoning.append(text.as_str());
                                output.push(Render::Reasoning(text.clone()));
                            },
                            SessionPhase::Thinking => {
                                self.reasoning.append(text.as_str());
                                output.push(Render::Reasoning(text.clone()));
                            },
                            _ => {},
                        }
                    },
                    StreamEvent::ContentDelta(text, sender) => {
                        match self.phase {
                            SessionPhase::NotStarted => {
                                output.push(Render::AnswerHeader);
                            },
                            SessionPhase::Thinking => {
                                output.push(Render::LineBreak);
                                output.push(Render::AnswerHeader);
                            },
                            _ => {},
                        }
                        self.phase = SessionPhase::Answering;
                        self.answer.append(text.as_str());
                        self.role = *sender;
                        output.push(Render::Answer(text.clone()));
                    },
                    StreamEvent::End => {
                        self.phase = SessionPhase::Done;
                        output.push(Render::LineBreak);
                        transcript.push(Message::new(self.role, self.answer.clone()));
                    },
                }
            },
        }
        proof {
            assert(shown(output@) =~= course.output);
            assert(transcript@ =~= old(transcript)@ + course.replies);
        }
        output
    }
}

/// The pieces of content among `events`, put together, with nothing between
/// them.
pub open spec fn content_of(events: Seq<EventView>) -> Seq<char>
    decreases events.len(),
{
    if events.len() == 0 {
        Seq::empty()
    } else {
        match events.last() {
            EventView::ContentDelta(text, _) => content_of(events.drop_last()) + text,
            _ => content_of(events.drop_last()),
        }
    }
}

/// The sender of the last piece of content among `events`; the assistant
/// where there is none.
pub open spec fn sender_of(events: Seq<EventView>) -> Sender
    decreases events.len(),
{
    if events.len() == 0 {
        Sender::Assistant
    } else {
        match events.last() {
            EventView::ContentDelta(_, sender) => sender,
            _ => sender_of(events.drop_last()),
        }
    }
}

/// Events may be run in two parts: the second part goes on where the first
/// has left the session.
pub proof fn lemma_run_append(session: SessionView, first: Seq<EventView>, second: Seq<EventView>)
    ensures
        ({
            let whole = session.run(first + second);
            let head = session.run(first);
            let tail = head.end.run(second);
            &&& whole.end == tail.end
            &&& whole.output == head.output + tail.output
            &&& whole.replies == head.replies + tail.replies
        }),
    decreases second.len(),
{
    let head = session.run(first);
    if second.len() == 0 {
        assert(first + second =~= first);
        assert(head.output + Seq::<RenderView>::empty() =~= head.output);
        assert(head.replies + Seq::<MessageView>::empty() =~= head.replies);
    } else {
        assert((first + second).drop_last() =~= first + second.drop_last());
        lemma_run_append(session, first, second.drop_last());
        let shorter = head.end.run(second.drop_last());
        let last = shorter.end.step(second.last());
        assert(head.output + shorter.output + last.output =~= head.output + (shorter.output
            + last.output));
        assert(head.replies + shorter.replies + last.replies =~= head.replies + (shorter.replies
            + last.replies));
    }
}

/// No event takes a session back to an earlier phase.
pub proof fn lemma_phase_never_goes_back(session: SessionView, event: EventView)
    ensures
        session.step(event).end.phase.rank() >= session.phase.rank(),
{
}

/// Over any events, a session's phase only moves forward.
pub proof fn lemma_run_never_goes_back(session: SessionView, events: Seq<EventView>)
    ensures
        session.run(events).end.phase.rank() >= session.phase.rank(),
    decreases events.len(),
{
    if events.len() > 0 {
        lemma_run_never_goes_back(session, events.drop_last());
        lemma_phase_never_goes_back(session.run(events.drop_last()).end, events.last());
    }
}

/// Until a session has reached the answer it has shown nothing of one.
proof fn lemma_no_answer_before_answering(events: Seq<EventView>)
    ensures
        ({
            let course = SessionView::fresh().run(events);
            course.end.phase.rank() < SessionPhase::Answering.rank() ==> forall|i: int|
                0 <= i < course.output.len() ==> !course.output[i].of_answer()
        }),
    decreases events.len(),
{
    if events.len() > 0 {
        let earlier = SessionView::fresh().run(events.drop_last());
        lemma_no_answer_before_answering(events.drop_last());
        lemma_phase_never_goes_back(earlier.end, events.last());
    }
}

/// Reasoning is never shown after any of the answer: whatever events come, and
/// in whatever order, once the session has shown the heading or a piece of
/// the answer it shows no more reasoning.
pub proof fn lemma_no_reasoning_after_answer(events: Seq<EventView>)
    ensures
        ({
            let output = SessionView::fresh().run(events).output;
            forall|i: int, j: int|
                0 <= i < j < output.len() && output[i].of_answer() ==> !output[j].of_reasoning()
        }),
    decreases events.len(),
{
    if events.len() > 0 {
        let earlier = SessionView::fresh().run(events.drop_last());
        let last = earlier.end.step(events.last());
        let output = SessionView::fresh().run(events).output;
        lemma_no_reasoning_after_answer(events.drop_last());
        lemma_no_answer_before_answering(events.drop_last());
        assert(output == earlier.output + last.output);
        assert forall|i: int, j: int|
            0 <= i < j < output.len() && output[i].of_answer() implies !output[j].of_reasoning() by {
            if j >= earlier.output.len() {
                let k = j - earlier.output.len();
                assert(output[j] == last.output[k]);
                if i >= earlier.output.len() {
                    assert(output[i] == last.output[i - earlier.output.len()]);
                } else {
                    assert(output[i] == earlier.output[i]);
                }
            } else {
                assert(output[i] == earlier.output[i]);
                assert(output[j] == earlier.output[j]);
            }
        }
    }
}

/// While the response has not ended, the answer that a session holds is the
/// pieces of content that arrived, joined without anything added, and its
/// sender is that of the last piece.
pub proof fn lemma_answer_is_the_content(events: Seq<EventView>)
    requires
        forall|i: int| 0 <= i < events.len() ==> !(events[i] is End),
    ensures
        SessionView::fresh().run(events).end.answer == content_of(events),
        SessionView::fresh().run(events).end.role == sender_of(events),
        SessionView::fresh().run(events).end.phase != SessionPhase::Done,
        SessionView::fresh().run(events).replies == Seq::<MessageView>::empty(),
    decreases events.len(),
{
    if events.len() > 0 {
        let shorter = events.drop_last();
        lemma_answer_is_the_content(shorter);
        let earlier = SessionView::fresh().run(shorter);
        assert(earlier.replies + earlier.end.step(events.last()).replies =~= Seq::<
            MessageView,
        >::empty());
    }
}

/// When the response ends, exactly one message goes to the transcript: the
/// pieces of content that arrived, joined without anything added, from the
/// sender of the last piece.
pub proof fn lemma_reply_is_the_content(events: Seq<EventView>)
    requires
        forall|i: int| 0 <= i < events.len() ==> !(events[i] is End),
    ensures
        SessionView::fresh().run(events.push(EventView::End)).replies == seq![
            plain_message(sender_of(events), content_of(events)),
        ],
{
    lemma_answer_is_the_content(events);
    let all = events.push(EventView::End);
    assert(all.drop_last() =~= events);
    let earlier = SessionView::fresh().run(events);
    assert(earlier.replies + earlier.end.step(EventView::End).replies =~= seq![
        plain_message(sender_of(events), content_of(events)),
    ]);
}

} // verus!
