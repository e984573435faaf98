//! The requester: one conversation with one model.
//!
//! The requester owns the transcript. A turn begins with [`Requester::request`],
//! which adds the user's message and gives the body to send. What comes back
//! is handed over as it arrives: the status to [`check_status`], a whole body to
//! [`Requester::resolve_response`], or the chunks of a streamed body to
//! [`Requester::resolve_response_streaming`] and, at the end,
//! [`Requester::finish_streaming`]. Sending and receiving is the caller's part.

use vstd::prelude::*;
use crate::config::{Config, ConfigView};
use crate::decoder::{
    joined, lemma_fed_twice, lemma_no_newline, lemma_whole_stream_ends_once, views, whole_stream,
    whole_stream_status, Batch, ChunkDecoder, DecoderView, Status,
};
use crate::error::{ConfigError, RequestError};
use crate::event::{EventView, StreamEvent};
use crate::json::{document, parse};
use crate::parameter::Parameter;
use crate::session::{
    content_of, lemma_answer_is_the_content, lemma_no_reasoning_after_answer,
    lemma_reply_is_the_content, lemma_run_append, sender_of, shown, Render, RenderView,
    SessionView, StreamSession,
};
use crate::transcript::{
    opens_with_system, plain_message, Message, MessageView, Sender, Transcript,
};
use crate::wire::{decode_first_choice, first_choice};

verus! {

/// The body of a request.
pub struct Request<'a> {
    pub model: &'a String,
    pub stream: bool,
    pub messages: &'a Vec<Message>,
    pub temperature: i32,
}

impl Request<'_> {
    /// The body that asks `model` to go on from `messages`, at temperature 0.
    pub fn new<'a>(model: &'a String, messages: &'a Vec<Message>, stream: bool) -> (request:
        Request<'a>)
        ensures
            request.model == model,
            request.messages == messages,
            request.stream == stream,
            request.temperature == 0,
    {
        Request { model, stream, messages, temperature: 0 }
    }
}

/// What to show, and the failure that ended the turn, if one did. What was
/// shown before a failure stands.
#[derive(Debug, PartialEq, Eq)]
pub struct Rendered {
    pub output: Vec<Render>,
    pub error: Option<RequestError>,
}

/// The address to send requests for the server at `host` to.
pub open spec fn endpoint_of(host: Seq<char>) -> Seq<char> {
    "https://"@ + host + "/chat/completions"@
}

/// The value of the authorization header for `api_key`.
pub open spec fn bearer_of(api_key: Seq<char>) -> Seq<char> {
    "Bearer "@ + api_key
}

/// The name of the model to talk to: the command line's, else the
/// configuration's default.
pub open spec fn chosen_model(parameter: Parameter, config: ConfigView) -> Seq<char> {
    match parameter.model {
        Some(name) => name@,
        None => config.default_model,
    }
}

/// The reply that a whole response body holds.
pub open spec fn reply_of(body: Seq<u8>) -> Result<MessageView, RequestError> {
    match document(body) {
        None => Err(RequestError::Malformed),
        Some(doc) => first_choice(doc, "message"@),
    }
}

/// How a whole reply is shown: its reasoning, where it has any, under its
/// heading, then the answer under its own.
pub open spec fn reply_output(reply: MessageView) -> Seq<RenderView> {
    let answer = seq![
        RenderView::AnswerHeader,
        RenderView::Answer(reply.content),
        RenderView::LineBreak,
    ];
    match reply.reasoning {
        Some(text) => seq![
            RenderView::ThinkingHeader,
            RenderView::Reasoning(text),
            RenderView::LineBreak,
        ] + answer,
        None => answer,
    }
}

/// A status in 200..=299 is a success; any other ends the turn.
pub open spec fn status_outcome(status: u16) -> Result<(), RequestError> {
    if 200 <= status && status <= 299 {
        Ok(())
    } else {
        Err(RequestError::Status(status))
    }
}

/// Tells a response to go on with from one that ends the turn.
pub fn check_status(status: u16) -> (res: Result<(), RequestError>)
    ensures
        res == status_outcome(status),
{
    if 200 <= status && status <= 299 {
        Ok(())
    } else {
        Err(RequestError::Status(status))
    }
}

/// A [`Requester`] in specifications.
pub ghost struct RequesterView {
    pub transcript: Seq<MessageView>,
    pub model: Seq<char>,
    pub base_url: Seq<char>,
    pub api_key: Seq<char>,
    pub timeout: u64,
    pub stream: bool,
    pub decoder: DecoderView,
    pub session: SessionView,
}

impl RequesterView {
    /// The requester's decoder is well-formed.
    pub open spec fn wf(self) -> bool {
        self.decoder.wf()
    }

    /// The requester for a command line, a configuration and an API key. The
    /// model has to be in the configuration, and the key has to be there.
    pub open spec fn set_up(
        parameter: Parameter,
        config: ConfigView,
        api_key: Option<Seq<char>>,
    ) -> Result<RequesterView, ConfigError> {
        let name = chosen_model(parameter, config);
        if !config.models.contains_key(name) {
            Err(ConfigError::UnknownModel)
        } else if api_key is None {
            Err(ConfigError::MissingCredential)
        } else {
            let model = config.models[name];
            Ok(
                RequesterView {
                    transcript: seq![
                        plain_message(
                            Sender::System,
                            match parameter.prompt {
                                Some(prompt) => prompt@,
                                None => config.prompt,
                            },
                        ),
                    ],
                    model: model.access_point,
                    base_url: endpoint_of(
                        match model.base_url {
                            Some(host) => host,
                            None => config.base_url,
                        },
                    ),
                    api_key: api_key->0,
                    timeout: match parameter.timeout {
                        Some(seconds) => seconds,
                        None => config.timeout,
                    },
                    stream: parameter.stream,
                    decoder: DecoderView::fresh(),
                    session: SessionView::fresh(),
                },
            )
        }
    }

    /// The requester at the start of a turn: the user's message is in the
    /// transcript, and decoder and session start afresh.
    pub open spec fn asked(self, message: Seq<char>) -> RequesterView {
        RequesterView {
            transcript: self.transcript.push(plain_message(Sender::User, message)),
            decoder: DecoderView::fresh(),
            session: SessionView::fresh(),
            ..self
        }
    }

    /// The requester after a whole reply: its message is in the transcript,
    /// without the reasoning.
    pub open spec fn replied(self, reply: MessageView) -> RequesterView {
        RequesterView {
            transcript: self.transcript.push(plain_message(reply.role, reply.content)),
            ..self
        }
    }

    /// The requester after `events`, and what they show.
    pub open spec fn received(self, events: Seq<EventView>) -> (RequesterView, Seq<RenderView>) {
        let course = self.session.run(events);
        (
            RequesterView {
                session: course.end,
                transcript: self.transcript + course.replies,
                ..self
            },
            course.output,
        )
    }

    /// The requester after one more chunk of a streamed body, and what the
    /// chunk shows.
    pub open spec fn streamed(self, chunk: Seq<u8>) -> (RequesterView, Seq<RenderView>) {
        let (decoder, events) = self.decoder.fed(chunk);
        RequesterView { decoder, ..self }.received(events)
    }

    /// The requester after each of `chunks` in turn, and all that they show.
    pub open spec fn streamed_all(self, chunks: Seq<Seq<u8>>) -> (RequesterView, Seq<RenderView>)
        decreases chunks.len(),
    {
        if chunks.len() == 0 {
            (self, Seq::empty())
        } else {
            let (middle, earlier) = self.streamed_all(chunks.drop_last());
            let (end, later) = middle.streamed(chunks.last());
            (end, earlier + later)
        }
    }

    /// The requester after the end of a streamed body, and what is shown
    /// last.
    pub open spec fn stream_ended(self) -> (RequesterView, Seq<RenderView>) {
        let (decoder, events) = self.decoder.finished();
        RequesterView { decoder, ..self }.received(events)
    }
}

/// One conversation with one model.
pub struct Requester {
    messages: Transcript,
    model: String,
    base_url: String,
    api_key: String,
    timeout: u64,
    stream: bool,
    decoder: ChunkDecoder,
    session: StreamSession,
}

impl View for Requester {
    type V = RequesterView;

    closed spec fn view(&self) -> RequesterView {
        RequesterView {
            transcript: self.messages@,
            model: self.model@,
            base_url: self.base_url@,
            api_key: self.api_key@,
            timeout: self.timeout,
            stream: self.stream,
            decoder: self.decoder@,
            session: self.session@,
        }
    }
}

impl Requester {
    /// Sets up a conversation. `api_key` is the API key, where the caller has
    /// one.
    pub fn new(parameter: &Parameter, config: &Config, api_key: Option<String>) -> (res: Result<
        Requester,
        ConfigError,
    >)
        ensures
            match res {
                Ok(requester) => RequesterView::set_up(
                    *parameter,
                    config@,
                    match api_key {
                        Some(key) => Some(key@),
                        None => None,
                    },
                ) == Ok::<RequesterView, ConfigError>(requester@) && requester@.wf(),
                Err(error) => RequesterView::set_up(
                    *parameter,
                    config@,
                    match api_key {
                        Some(key) => Some(key@),
                        None => None,
                    },
                ) == Err::<RequesterView, ConfigError>(error),
            },
    {
        let name = match &parameter.model {
            Some(name) => name,
            None => &config.default_model,
        };
        let model = match config.models.get(name) {
            Some(model) => model,
            None => {
                return Err(ConfigError::UnknownModel);
            },
        };
        let api_key = match api_key {
            Some(key) => key,
            None => {
                return Err(ConfigError::MissingCredential);
            },
        };
        let prompt = match &parameter.prompt {
            Some(prompt) => prompt.clone(),
            None => config.prompt.clone(),
        };
        let host = match &model.base_url {
            Some(host) => host,
            None => &config.base_url,
        };
        let mut base_url = "https://".to_owned();
        base_url.append(host.as_str());
        base_url.append("/chat/completions");
        let timeout = match parameter.timeout {
            Some(seconds) => seconds,
            None => config.timeout,
        };
        let requester = Requester {
            messages: Transcript::new(prompt),
            model: model.access_point.clone(),
            base_url,
            api_key,
            timeout,
            stream: parameter.stream,
            decoder: ChunkDecoder::new(),
            session: StreamSession::new(),
        };
        Ok(requester)
    }

    /// The conversation so far.
    pub fn transcript(&self) -> (transcript: &Transcript)
        ensures
            transcript@ == self@.transcript,
    {
        &self.messages
    }

    /// The name that the server knows the model by.
    pub fn model(&self) -> (model: &String)
        ensures
            model@ == self@.model,
    {
        &self.model
    }

    /// The address to send requests to.
    pub fn endpoint(&self) -> (url: &String)
        ensures
            url@ == self@.base_url,
    {
        &self.base_url
    }

    /// The value of the authorization header.
    pub fn authorization(&self) -> (header: String)
        ensures
            header@ == bearer_of(self@.api_key),
    {
        let mut header = "Bearer ".to_owned();
        header.append(self.api_key.as_str());
        header
    }

    /// The request timeout, in seconds.
    pub fn timeout(&self) -> (seconds: u64)
        ensures
            seconds == self@.timeout,
    {
        self.timeout
    }

    /// Whether responses are asked for as streams.
    pub fn streaming(&self) -> (stream: bool)
        ensures
            stream == self@.stream,
    {
        self.stream
    }

    /// Begins a turn: adds the user's `message` to the transcript and starts
    /// decoder and session afresh. The body to send is [`Requester::body`].
    pub fn request(&mut self, message: String)
        ensures
            final(self)@ == old(self)@.asked(message@),
            final(self)@.wf(),
    {
        self.messages.push(Message::new(Sender::User, message));
        self.decoder = ChunkDecoder::new();
        self.session = StreamSession::new();
    }

    /// The body of the request for the turn that has begun: the model, the
    /// whole transcript, and whether a stream is asked for.
    pub fn body(&self) -> (request: Request<'_>)
        ensures
            request.model@ == self@.model,
            request.messages@.map_values(|m: Message| m@) == self@.transcript,
            request.stream == self@.stream,
            request.temperature == 0,
    {
        Request::new(&self.model, self.messages.messages(), self.stream)
    }

    /// Takes in a whole reply: adds its message to the transcript, without
    /// the reasoning, and returns what to show.
    pub fn accept_reply(&mut self, reply: Message) -> (output: Vec<Render>)
        ensures
            final(self)@ == old(self)@.replied(reply@),
            shown(output@) == reply_output(reply@),
    {
        let Message { role, content, reasoning } = reply;
        let mut output: Vec<Render> = Vec::new();
        match reasoning {
            Some(text) => {
                output.push(Render::ThinkingHeader);
                output.push(Render::Reasoning(text));
                output.push(Render::LineBreak);
            },
            None => {},
        }
        output.push(Render::AnswerHeader);
        output.push(Render::Answer(content.clone()));
        output.push(Render::LineBreak);
        self.messages.push(Message::new(role, content));
        assert(shown(output@) =~= reply_output(reply@));
        output
    }

    /// Takes in the whole body of a response that was not streamed. A body
    /// that holds no reply ends the turn and leaves the transcript as it is,
    /// with the user's message at its end.
    pub fn resolve_response(&mut self, body: &[u8]) -> (res: Result<Vec<Render>, RequestError>)
        ensures
            match res {
                Ok(output) => {
                    &&& reply_of(body@) is Ok
                    &&& final(self)@ == old(self)@.replied(reply_of(body@)->Ok_0)
                    &&& shown(output@) == reply_output(reply_of(body@)->Ok_0)
                },
                Err(error) => {
                    &&& reply_of(body@) == Err::<MessageView, RequestError>(error)
                    &&& final(self)@ == old(self)@
                },
            },
    {
        let doc = match parse(body) {
            Some(doc) => doc,
            None => {
                return Err(RequestError::Malformed);
            },
        };
        match decode_first_choice(&doc, "message") {
            Ok(reply) => Ok(self.accept_reply(reply)),
            Err(error) => Err(error),
        }
    }

    /// Takes in events in order: returns what they show, and adds the
    /// assistant's message to the transcript when the response ends.
    pub fn receive(&mut self, events: &Vec<StreamEvent>) -> (output: Vec<Render>)
        ensures
            final(self)@ == old(self)@.received(views(events@)).0,
            shown(output@) == old(self)@.received(views(events@)).1,
    {
        let mut output: Vec<Render> = Vec::new();
        let ghost all = views(events@);
        let mut i: usize = 0;
        proof {
            assert(all.take(0) =~= Seq::<EventView>::empty());
            assert(shown(output@) =~= Seq::<RenderView>::empty());
            assert(self@.transcript + Seq::<MessageView>::empty() =~= self@.transcript);
        }
        while i < events.len()
            invariant
                i <= events@.len(),
                all == views(events@),
                self@ == old(self)@.received(all.take(i as int)).0,
                shown(output@) == old(self)@.received(all.take(i as int)).1,
            decreases events@.len() - i,
        {
            let ghost before = self@;
            let ghost shown_before = shown(output@);
            let mut more = self.session.step(&events[i], &mut self.messages);
            let ghost shown_more = shown(more@);
            output.append(&mut more);
            proof {
                let upto = all.take(i + 1);
                assert(upto.drop_last() =~= all.take(i as int));
                assert(upto.last() == events@[i as int]@);
                let earlier = old(self)@.session.run(all.take(i as int));
                let last = earlier.end.step(upto.last());
                assert(shown(output@) =~= shown_before + shown_more);
                assert(self@.transcript =~= old(self)@.transcript + (earlier.replies
                    + last.replies));
            }
            i += 1;
        }
        assert(all.take(i as int) =~= all);
        output
    }

    fn report(&mut self, batch: Batch) -> (rendered: Rendered)
        ensures
            final(self)@ == old(self)@.received(views(batch.events@)).0,
            shown(rendered.output@) == old(self)@.received(views(batch.events@)).1,
            rendered.error == batch.error,
    {
        let Batch { events, error } = batch;
        let output = self.receive(&events);
        Rendered { output, error }
    }

    /// Takes in the next chunk of a streamed body: returns what it shows, and
    /// adds the assistant's message to the transcript when the response ends.
    /// A frame that cannot be read ends the turn; the transcript then gets
    /// no message from it.
    pub fn resolve_response_streaming(&mut self, chunk: &[u8]) -> (rendered: Rendered)
        requires
            old(self)@.wf(),
        ensures
            final(self)@.wf(),
            final(self)@ == old(self)@.streamed(chunk@).0,
            shown(rendered.output@) == old(self)@.streamed(chunk@).1,
            rendered.error == final(self)@.decoder.failure(),
    {
        let batch = self.decoder.feed(chunk);
        self.report(batch)
    }

    /// Ends a streamed body: what was left unfinished is read as a last line
    /// and, unless the response has ended or failed before, it ends now.
    pub fn finish_streaming(&mut self) -> (rendered: Rendered)
        requires
            old(self)@.wf(),
        ensures
            final(self)@.wf(),
            final(self)@ == old(self)@.stream_ended().0,
            shown(rendered.output@) == old(self)@.stream_ended().1,
            rendered.error == final(self)@.decoder.failure(),
    {
        let batch = self.decoder.finish();
        self.report(batch)
    }
}

/// Taking in two chunks one after the other is taking them in as one.
pub proof fn lemma_streamed_twice(requester: RequesterView, first: Seq<u8>, second: Seq<u8>)
    requires
        requester.wf(),
    ensures
        requester.streamed(first).0.wf(),
        requester.streamed(first).0.streamed(second).0 == requester.streamed(first + second).0,
        requester.streamed(first).1 + requester.streamed(first).0.streamed(second).1
            == requester.streamed(first + second).1,
{
    let (decoder, events) = requester.decoder.fed(first);
    let (middle, earlier) = requester.streamed(first);
    let (later_decoder, later_events) = decoder.fed(second);
    let (end, later) = middle.streamed(second);
    lemma_fed_twice(requester.decoder, first, second);
    lemma_run_append(requester.session, events, later_events);
    let head = requester.session.run(events);
    let tail = head.end.run(later_events);
    assert(end.transcript =~= requester.transcript + (head.replies + tail.replies));
}

/// Taking in chunks in turn is taking in their bytes as one chunk.
pub proof fn lemma_streamed_all_is_streamed_joined(requester: RequesterView, chunks: Seq<Seq<u8>>)
    requires
        requester.wf(),
    ensures
        requester.streamed_all(chunks) == requester.streamed(joined(chunks)),
        requester.streamed_all(chunks).0.wf(),
    decreases chunks.len(),
{
    if chunks.len() == 0 {
        if requester.decoder.status == Status::Open {
            assert(requester.decoder.carry + joined(chunks) =~= requester.decoder.carry);
            lemma_no_newline(requester.decoder.carry);
        }
        assert(requester.decoder.fed(joined(chunks)).0 == requester.decoder);
        assert(requester.transcript + Seq::<MessageView>::empty() =~= requester.transcript);
    } else {
        lemma_streamed_all_is_streamed_joined(requester, chunks.drop_last());
        lemma_streamed_twice(requester, joined(chunks.drop_last()), chunks.last());
        lemma_streamed_twice(requester, joined(chunks), Seq::empty());
    }
}

/// Where a streamed body is cut into chunks makes no difference to a turn:
/// two ways of cutting the same bytes show the same, in the same order, and
/// leave the requester in the same state.
pub proof fn lemma_turn_ignores_cuts(
    requester: RequesterView,
    one: Seq<Seq<u8>>,
    other: Seq<Seq<u8>>,
)
    requires
        requester.wf(),
        joined(one) == joined(other),
    ensures
        requester.streamed_all(one) == requester.streamed_all(other),
{
    lemma_streamed_all_is_streamed_joined(requester, one);
    lemma_streamed_all_is_streamed_joined(requester, other);
}

/// In a turn, reasoning is never shown after any of the answer, whatever the
/// server sends and however it is cut.
pub proof fn lemma_turn_shows_reasoning_first(
    requester: RequesterView,
    message: Seq<char>,
    chunks: Seq<Seq<u8>>,
)
    ensures
        ({
            let (middle, earlier) = requester.asked(message).streamed_all(chunks);
            let output = earlier + middle.stream_ended().1;
            forall|i: int, j: int|
                0 <= i < j < output.len() && output[i].of_answer() ==> !output[j].of_reasoning()
        }),
{
    let begun = requester.asked(message);
    let bytes = joined(chunks);
    lemma_streamed_all_is_streamed_joined(begun, chunks);
    let (decoder, events) = begun.decoder.fed(bytes);
    let (middle, earlier) = begun.streamed(bytes);
    let last_events = decoder.finished().1;
    lemma_run_append(SessionView::fresh(), events, last_events);
    lemma_no_reasoning_after_answer(events + last_events);
}

/// A streamed turn that is read to its end adds exactly one message to the
/// transcript, after the user's: the pieces of content that arrived, joined
/// with nothing between them, from the sender of the last piece. A turn that
/// fails adds none.
pub proof fn lemma_turn_adds_one_reply(
    requester: RequesterView,
    message: Seq<char>,
    chunks: Seq<Seq<u8>>,
)
    ensures
        ({
            let begun = requester.asked(message);
            let end = begun.streamed_all(chunks).0.stream_ended().0;
            let events = whole_stream(joined(chunks));
            &&& end.decoder.status == whole_stream_status(joined(chunks))
            &&& end.decoder.status != Status::Open
            &&& end.decoder.status == Status::Done ==> events.len() > 0 && end.transcript
                == begun.transcript.push(
                plain_message(sender_of(events.drop_last()), content_of(events.drop_last())),
            )
            &&& end.decoder.status != Status::Done ==> end.transcript == begun.transcript
        }),
{
    let begun = requester.asked(message);
    let bytes = joined(chunks);
    lemma_streamed_all_is_streamed_joined(begun, chunks);
    let (decoder, events) = begun.decoder.fed(bytes);
    let (middle, earlier) = begun.streamed(bytes);
    let last_events = decoder.finished().1;
    let end = middle.stream_ended().0;
    let all = whole_stream(bytes);
    lemma_run_append(SessionView::fresh(), events, last_events);
    lemma_whole_stream_ends_once(bytes);
    let head = SessionView::fresh().run(events);
    let tail = head.end.run(last_events);
    assert(end.transcript =~= begun.transcript + (head.replies + tail.replies));
    if end.decoder.status == Status::Done {
        let before = all.drop_last();
        assert(before.push(EventView::End) =~= all);
        assert forall|i: int| 0 <= i < before.len() implies !(before[i] is End) by {
            assert(before[i] == all[i]);
        }
        lemma_reply_is_the_content(before);
        assert(end.transcript =~= begun.transcript.push(
            plain_message(sender_of(before), content_of(before)),
        ));
    } else {
        assert forall|i: int| 0 <= i < all.len() implies !(all[i] is End) by {}
        lemma_answer_is_the_content(all);
        assert(end.transcript =~= begun.transcript);
    }
}

/// Whatever a requester takes in, its transcript only grows at its end, and
/// so keeps the system message that it opens with.
pub proof fn lemma_transcript_only_grows(
    requester: RequesterView,
    message: Seq<char>,
    reply: MessageView,
    events: Seq<EventView>,
    chunk: Seq<u8>,
)
    ensures
        requester.transcript.is_prefix_of(requester.asked(message).transcript),
        requester.transcript.is_prefix_of(requester.replied(reply).transcript),
        requester.transcript.is_prefix_of(requester.received(events).0.transcript),
        requester.transcript.is_prefix_of(requester.streamed(chunk).0.transcript),
        requester.transcript.is_prefix_of(requester.stream_ended().0.transcript),
        opens_with_system(requester.transcript) ==> {
            &&& opens_with_system(requester.asked(message).transcript)
            &&& opens_with_system(requester.replied(reply).transcript)
            &&& opens_with_system(requester.received(events).0.transcript)
            &&& opens_with_system(requester.streamed(chunk).0.transcript)
            &&& opens_with_system(requester.stream_ended().0.transcript)
        },
{
}

} // verus!
