use clai::ai::Requester;
use clai::config::{Config, Model, Models};
use clai::decoder::{ChunkDecoder, Status};
use clai::error::RequestError;
use clai::event::{decode_delta, decode_line, decode_payload, StreamEvent};
use clai::json::parse;
use clai::parameter::Parameter;
use clai::session::{Render, SessionPhase, StreamSession};
use clai::transcript::{Message, Sender, Transcript};

const THINK: &str = "data: {\"choices\":[{\"delta\":{\"role\":\"assistant\",\"content\":\"\",\"reasoning_content\":\"Let me think\"}}]}\n";
const ANSWER: &str = "data: {\"choices\":[{\"delta\":{\"role\":\"assistant\",\"content\":\"42\",\"reasoning_content\":null}}]}\n";
const DONE: &str = "data: [DONE]\n";
const HEARTBEAT: &str = "{\"choices\":[{\"delta\":{\"role\":\"assistant\",\"content\":\"\"}}]}";

fn content_frame(text: &str) -> String {
    format!(
        "data: {{\"choices\":[{{\"delta\":{{\"role\":\"assistant\",\"content\":\"{}\"}}}}]}}\n",
        text
    )
}

fn reasoning_frame(text: &str) -> String {
    format!(
        "data: {{\"choices\":[{{\"delta\":{{\"role\":\"assistant\",\"content\":\"\",\"reasoning_content\":\"{}\"}}}}]}}\n",
        text
    )
}

fn streaming_requester() -> Requester {
    let mut models = Models::new();
    models.insert(
        "r1".to_string(),
        Model { access_point: "deepseek-r1".to_string(), base_url: None },
    );
    let config = Config {
        prompt: "be brief".to_string(),
        timeout: 30,
        default_model: "r1".to_string(),
        base_url: "api.example.com".to_string(),
        models,
    };
    let parameter = Parameter {
        query: None,
        prompt: None,
        timeout: None,
        interactive: false,
        model: None,
        stream: true,
    };
    Requester::new(&parameter, &config, Some("secret".to_string())).unwrap()
}

fn decode_whole(chunks: &[&[u8]]) -> (Vec<StreamEvent>, Option<RequestError>, Status) {
    let mut decoder = ChunkDecoder::new();
    let mut events = Vec::new();
    let mut error = None;
    for chunk in chunks {
        let batch = decoder.feed(chunk);
        events.extend(batch.events);
        error = batch.error;
    }
    let batch = decoder.finish();
    events.extend(batch.events);
    if batch.error.is_some() {
        error = batch.error;
    }
    (events, error, decoder.status())
}

#[test]
fn reasoning_then_answer_then_done() {
    let body = format!("{}{}{}", THINK, ANSWER, DONE);
    let (events, error, status) = decode_whole(&[body.as_bytes()]);
    assert_eq!(
        events,
        vec![
            StreamEvent::ReasoningDelta("Let me think".to_string()),
            StreamEvent::ContentDelta("42".to_string(), Sender::Assistant),
            StreamEvent::End,
        ]
    );
    assert_eq!(error, None);
    assert_eq!(status, Status::Done);
}

#[test]
fn streamed_turn_adds_exactly_one_assistant_message() {
    let mut requester = streaming_requester();
    requester.request("what is six times seven?".to_string());
    assert_eq!(requester.transcript().len(), 2);
    let body = format!("{}{}{}", THINK, ANSWER, DONE);
    let rendered = requester.resolve_response_streaming(body.as_bytes());
    assert_eq!(rendered.error, None);
    assert_eq!(
        rendered.output,
        vec![
            Render::ThinkingHeader,
            Render::Reasoning("Let me think".to_string()),
            Render::LineBreak,
            Render::AnswerHeader,
            Render::Answer("42".to_string()),
            Render::LineBreak,
        ]
    );
    let last = requester.finish_streaming();
    assert_eq!(last.output, Vec::<Render>::new());
    assert_eq!(last.error, None);
    assert_eq!(requester.transcript().len(), 3);
    assert_eq!(
        requester.transcript().get(2),
        &Message { role: Sender::Assistant, content: "42".to_string(), reasoning: None }
    );
}

#[test]
fn content_deltas_are_joined_exactly() {
    let mut requester = streaming_requester();
    requester.request("greet me".to_string());
    let body = format!("{}{}{}", content_frame("Hel"), content_frame("lo"), DONE);
    let rendered = requester.resolve_response_streaming(body.as_bytes());
    assert_eq!(
        rendered.output,
        vec![
            Render::AnswerHeader,
            Render::Answer("Hel".to_string()),
            Render::Answer("lo".to_string()),
            Render::LineBreak,
        ]
    );
    assert_eq!(requester.transcript().len(), 3);
    assert_eq!(requester.transcript().get(2).content, "Hello");
    assert_eq!(requester.transcript().get(2).role, Sender::Assistant);
}

#[test]
fn blank_line_and_heartbeat_give_no_event() {
    assert_eq!(decode_line(b""), Ok(None));
    assert_eq!(decode_line(b"   \r"), Ok(None));
    assert_eq!(decode_line(HEARTBEAT.as_bytes()), Ok(None));
    assert_eq!(decode_line(format!("data: {}", HEARTBEAT).as_bytes()), Ok(None));
    let body = format!("\n\r\ndata: {}\n\n", HEARTBEAT);
    let mut decoder = ChunkDecoder::new();
    let batch = decoder.feed(body.as_bytes());
    assert_eq!(batch.events, Vec::<StreamEvent>::new());
    assert_eq!(batch.error, None);
    assert_eq!(decoder.status(), Status::Open);
}

#[test]
fn every_cut_of_a_body_gives_the_same_events() {
    let body = format!("{}\n{}{}{}", THINK, reasoning_frame("more"), ANSWER, DONE);
    let bytes = body.as_bytes();
    let whole = decode_whole(&[bytes]);
    assert_eq!(whole.0.len(), 4);
    for cut in 0..=bytes.len() {
        let (head, tail) = bytes.split_at(cut);
        assert_eq!(decode_whole(&[head, tail]), whole);
    }
    let singles: Vec<&[u8]> = bytes.chunks(1).collect();
    assert_eq!(decode_whole(&singles), whole);
    let triples: Vec<&[u8]> = bytes.chunks(3).collect();
    assert_eq!(decode_whole(&triples), whole);
}

#[test]
fn a_character_cut_in_two_is_put_together_again() {
    let body = content_frame("caf\u{e9}");
    let bytes = body.as_bytes();
    let cut = body.find('\u{e9}').unwrap() + 1;
    let (events, error, _) = decode_whole(&[&bytes[..cut], &bytes[cut..]]);
    assert_eq!(error, None);
    assert_eq!(
        events,
        vec![StreamEvent::ContentDelta("caf\u{e9}".to_string(), Sender::Assistant), StreamEvent::End]
    );
}

#[test]
fn nothing_is_read_after_the_end_mark() {
    let body = format!("{}{}{}this is not json\n", ANSWER, DONE, content_frame("late"));
    let mut decoder = ChunkDecoder::new();
    let batch = decoder.feed(body.as_bytes());
    assert_eq!(
        batch.events,
        vec![StreamEvent::ContentDelta("42".to_string(), Sender::Assistant), StreamEvent::End]
    );
    assert_eq!(batch.error, None);
    assert_eq!(decoder.status(), Status::Done);
    let later = decoder.feed(content_frame("later").as_bytes());
    assert_eq!(later.events, Vec::<StreamEvent>::new());
    assert_eq!(later.error, None);
    let last = decoder.finish();
    assert_eq!(last.events, Vec::<StreamEvent>::new());
    assert_eq!(decoder.status(), Status::Done);
}

#[test]
fn a_body_without_end_mark_ends_when_it_is_finished() {
    let body = format!("{}{}", content_frame("a"), content_frame("b").trim_end());
    let mut decoder = ChunkDecoder::new();
    let batch = decoder.feed(body.as_bytes());
    assert_eq!(batch.events, vec![StreamEvent::ContentDelta("a".to_string(), Sender::Assistant)]);
    assert_eq!(decoder.status(), Status::Open);
    let last = decoder.finish();
    assert_eq!(
        last.events,
        vec![StreamEvent::ContentDelta("b".to_string(), Sender::Assistant), StreamEvent::End]
    );
    assert_eq!(decoder.status(), Status::Done);
}

#[test]
fn an_unfinished_end_mark_counts_at_the_end() {
    let mut decoder = ChunkDecoder::new();
    assert_eq!(decoder.feed(b"data: [DONE]").events, Vec::<StreamEvent>::new());
    assert_eq!(decoder.finish().events, vec![StreamEvent::End]);
}

#[test]
fn a_frame_that_is_not_json_stops_the_decoder() {
    let body = format!("{}data: {{not json\n{}", content_frame("kept"), content_frame("lost"));
    let mut decoder = ChunkDecoder::new();
    let batch = decoder.feed(body.as_bytes());
    assert_eq!(
        batch.events,
        vec![StreamEvent::ContentDelta("kept".to_string(), Sender::Assistant)]
    );
    assert_eq!(batch.error, Some(RequestError::Malformed));
    assert_eq!(decoder.status(), Status::Failed(RequestError::Malformed));
    let later = decoder.feed(DONE.as_bytes());
    assert_eq!(later.events, Vec::<StreamEvent>::new());
    assert_eq!(later.error, Some(RequestError::Malformed));
    assert_eq!(decoder.finish().events, Vec::<StreamEvent>::new());
}

#[test]
fn a_failed_stream_leaves_the_user_turn_last() {
    let mut requester = streaming_requester();
    requester.request("hello".to_string());
    let body = format!("{}data: oops\n", content_frame("partial"));
    let rendered = requester.resolve_response_streaming(body.as_bytes());
    assert_eq!(
        rendered.output,
        vec![Render::AnswerHeader, Render::Answer("partial".to_string())]
    );
    assert_eq!(rendered.error, Some(RequestError::Malformed));
    let last = requester.finish_streaming();
    assert_eq!(last.output, Vec::<Render>::new());
    assert_eq!(last.error, Some(RequestError::Malformed));
    assert_eq!(requester.transcript().len(), 2);
    assert_eq!(requester.transcript().get(1).role, Sender::User);
    requester.request("again".to_string());
    let retry = requester.resolve_response_streaming(format!("{}{}", ANSWER, DONE).as_bytes());
    assert_eq!(retry.error, None);
    assert_eq!(requester.transcript().len(), 4);
    assert_eq!(requester.transcript().get(3).content, "42");
}

#[test]
fn a_frame_with_no_choice_is_an_error_of_its_own() {
    assert_eq!(decode_payload(b"{\"choices\":[]}"), Err(RequestError::EmptyChoice));
    assert_eq!(decode_payload(b"{\"choices\":{}}"), Err(RequestError::Malformed));
    assert_eq!(decode_payload(b"{}"), Err(RequestError::Malformed));
    assert_eq!(decode_payload(b"[]"), Err(RequestError::Malformed));
    assert_eq!(decode_payload(b"{\"choices\":[{}]}"), Err(RequestError::Malformed));
    assert_eq!(
        decode_payload(b"{\"choices\":[{\"delta\":{\"content\":\"x\"}}]}"),
        Err(RequestError::Malformed)
    );
    assert_eq!(
        decode_payload(b"{\"choices\":[{\"delta\":{\"role\":\"assistant\"}}]}"),
        Err(RequestError::Malformed)
    );
    assert_eq!(
        decode_payload(b"{\"choices\":[{\"delta\":{\"role\":\"robot\",\"content\":\"x\"}}]}"),
        Err(RequestError::Malformed)
    );
    assert_eq!(
        decode_payload(
            b"{\"choices\":[{\"delta\":{\"role\":\"assistant\",\"content\":\"x\",\"reasoning_content\":7}}]}"
        ),
        Err(RequestError::Malformed)
    );
}

#[test]
fn only_the_first_choice_is_read() {
    let payload = b"{\"choices\":[{\"delta\":{\"role\":\"user\",\"content\":\"one\"}},{\"delta\":{\"role\":\"assistant\",\"content\":\"two\"}},17],\"id\":\"x\"}";
    assert_eq!(
        decode_payload(payload),
        Ok(Some(StreamEvent::ContentDelta("one".to_string(), Sender::User)))
    );
}

#[test]
fn reasoning_goes_before_content_in_one_delta() {
    let doc = parse(
        b"{\"choices\":[{\"delta\":{\"role\":\"assistant\",\"content\":\"c\",\"reasoning_content\":\"r\"}}]}",
    )
    .unwrap();
    assert_eq!(decode_delta(&doc), Ok(Some(StreamEvent::ReasoningDelta("r".to_string()))));
    let doc = parse(
        b"{\"choices\":[{\"delta\":{\"role\":\"assistant\",\"content\":\"c\",\"reasoning_content\":\"\"}}]}",
    )
    .unwrap();
    assert_eq!(
        decode_delta(&doc),
        Ok(Some(StreamEvent::ContentDelta("c".to_string(), Sender::Assistant)))
    );
}

#[test]
fn reasoning_after_the_answer_is_passed_over() {
    let mut session = StreamSession::new();
    let mut transcript = Transcript::new("prompt".to_string());
    assert_eq!(session.phase(), SessionPhase::NotStarted);
    let out = session.step(&StreamEvent::ReasoningDelta("hm".to_string()), &mut transcript);
    assert_eq!(out, vec![Render::ThinkingHeader, Render::Reasoning("hm".to_string())]);
    assert_eq!(session.phase(), SessionPhase::Thinking);
    let out = session.step(&StreamEvent::ReasoningDelta("m".to_string()), &mut transcript);
    assert_eq!(out, vec![Render::Reasoning("m".to_string())]);
    let out = session
        .step(&StreamEvent::ContentDelta("yes".to_string(), Sender::Assistant), &mut transcript);
    assert_eq!(
        out,
        vec![Render::LineBreak, Render::AnswerHeader, Render::Answer("yes".to_string())]
    );
    assert_eq!(session.phase(), SessionPhase::Answering);
    let out = session.step(&StreamEvent::ReasoningDelta("late".to_string()), &mut transcript);
    assert_eq!(out, Vec::<Render>::new());
    assert_eq!(session.phase(), SessionPhase::Answering);
    assert_eq!(session.reasoning(), "hmm");
    assert_eq!(session.answer(), "yes");
    assert_eq!(transcript.len(), 1);
    let out = session.step(&StreamEvent::End, &mut transcript);
    assert_eq!(out, vec![Render::LineBreak]);
    assert_eq!(session.phase(), SessionPhase::Done);
    assert_eq!(transcript.len(), 2);
    assert_eq!(transcript.get(1), &Message::new(Sender::Assistant, "yes".to_string()));
}

#[test]
fn a_session_that_is_done_passes_over_everything() {
    let mut session = StreamSession::new();
    let mut transcript = Transcript::new("prompt".to_string());
    let out = session.step(&StreamEvent::End, &mut transcript);
    assert_eq!(out, vec![Render::LineBreak]);
    assert_eq!(transcript.len(), 2);
    assert_eq!(transcript.get(1), &Message::new(Sender::Assistant, String::new()));
    for event in [
        StreamEvent::End,
        StreamEvent::ContentDelta("x".to_string(), Sender::Assistant),
        StreamEvent::ReasoningDelta("y".to_string()),
    ] {
        assert_eq!(session.step(&event, &mut transcript), Vec::<Render>::new());
        assert_eq!(session.phase(), SessionPhase::Done);
    }
    assert_eq!(transcript.len(), 2);
}

#[test]
fn an_answer_without_reasoning_starts_with_its_heading() {
    let mut session = StreamSession::new();
    let mut transcript = Transcript::new("prompt".to_string());
    let out =
        session.step(&StreamEvent::ContentDelta("hi".to_string(), Sender::User), &mut transcript);
    assert_eq!(out, vec![Render::AnswerHeader, Render::Answer("hi".to_string())]);
    session.step(&StreamEvent::End, &mut transcript);
    assert_eq!(transcript.get(1), &Message::new(Sender::User, "hi".to_string()));
}
