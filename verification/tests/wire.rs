use clai::ai::Requester;
use clai::config::{Config, Model, Models};
use clai::error::{decimal_text, ConfigError, RequestError};
use clai::event::{delta_event, StreamEvent};
use clai::json::{Json, Member};
use clai::parameter::Parameter;
use clai::session::Render;
use clai::transcript::{Message, Sender};
use clai::wire::{decode_first_choice, decode_message};

fn text(value: &str) -> Json {
    Json::Text(value.to_string())
}

fn object(members: Vec<(&str, Json)>) -> Json {
    Json::Object(
        members
            .into_iter()
            .map(|(name, value)| Member { name: name.to_string(), value })
            .collect(),
    )
}

fn requester(stream: bool) -> Requester {
    let mut models = Models::new();
    models.insert("m".to_string(), Model { access_point: "ap".to_string(), base_url: None });
    let config = Config {
        prompt: String::new(),
        timeout: 9,
        default_model: "m".to_string(),
        base_url: "h".to_string(),
        models,
    };
    let parameter = Parameter {
        query: None,
        prompt: None,
        timeout: None,
        interactive: false,
        model: None,
        stream,
    };
    Requester::new(&parameter, &config, Some(String::new())).unwrap()
}

#[test]
fn a_message_object_is_read_member_by_member() {
    let full = object(vec![
        ("role", text("user")),
        ("content", text("hi")),
        ("reasoning_content", text("why")),
        ("extra", Json::Bool(false)),
    ]);
    assert_eq!(
        decode_message(&full),
        Some(Message {
            role: Sender::User,
            content: "hi".to_string(),
            reasoning: Some("why".to_string()),
        })
    );
    let null = object(vec![
        ("role", text("system")),
        ("content", text("")),
        ("reasoning_content", Json::Null),
    ]);
    assert_eq!(decode_message(&null), Some(Message::new(Sender::System, String::new())));
    let bare = object(vec![("content", text("c")), ("role", text("assistant"))]);
    assert_eq!(decode_message(&bare), Some(Message::new(Sender::Assistant, "c".to_string())));
}

#[test]
fn a_message_object_with_a_wrong_member_is_refused() {
    assert_eq!(decode_message(&Json::Null), None);
    assert_eq!(decode_message(&Json::Array(vec![])), None);
    assert_eq!(decode_message(&object(vec![])), None);
    assert_eq!(decode_message(&object(vec![("role", text("user"))])), None);
    assert_eq!(decode_message(&object(vec![("content", text("x"))])), None);
    assert_eq!(
        decode_message(&object(vec![("role", text("nobody")), ("content", text("x"))])),
        None
    );
    assert_eq!(
        decode_message(&object(vec![("role", Json::Null), ("content", text("x"))])),
        None
    );
    assert_eq!(
        decode_message(&object(vec![("role", text("user")), ("content", Json::Number(Some(1)))])),
        None
    );
    assert_eq!(
        decode_message(&object(vec![
            ("role", text("user")),
            ("content", text("x")),
            ("reasoning_content", Json::Bool(true)),
        ])),
        None
    );
}

#[test]
fn the_first_choice_is_found_under_its_slot() {
    let message = object(vec![("role", text("assistant")), ("content", text("yes"))]);
    let doc = object(vec![(
        "choices",
        Json::Array(vec![object(vec![("message", message)]), Json::Null]),
    )]);
    assert_eq!(
        decode_first_choice(&doc, "message"),
        Ok(Message::new(Sender::Assistant, "yes".to_string()))
    );
    assert_eq!(decode_first_choice(&doc, "delta"), Err(RequestError::Malformed));
    let empty = object(vec![("choices", Json::Array(vec![]))]);
    assert_eq!(decode_first_choice(&empty, "message"), Err(RequestError::EmptyChoice));
    assert_eq!(decode_first_choice(&empty, "delta"), Err(RequestError::EmptyChoice));
    assert_eq!(decode_first_choice(&object(vec![]), "message"), Err(RequestError::Malformed));
    assert_eq!(
        decode_first_choice(&object(vec![("choices", Json::Null)]), "message"),
        Err(RequestError::Malformed)
    );
    assert_eq!(decode_first_choice(&Json::Array(vec![]), "message"), Err(RequestError::Malformed));
}

#[test]
fn a_delta_is_reasoning_content_or_nothing() {
    let delta = |content: &str, reasoning: Option<&str>| Message {
        role: Sender::Assistant,
        content: content.to_string(),
        reasoning: reasoning.map(|r| r.to_string()),
    };
    assert_eq!(delta_event(delta("", None)), None);
    assert_eq!(delta_event(delta("", Some(""))), None);
    assert_eq!(
        delta_event(delta("c", None)),
        Some(StreamEvent::ContentDelta("c".to_string(), Sender::Assistant))
    );
    assert_eq!(
        delta_event(delta("c", Some(""))),
        Some(StreamEvent::ContentDelta("c".to_string(), Sender::Assistant))
    );
    assert_eq!(
        delta_event(delta("", Some("r"))),
        Some(StreamEvent::ReasoningDelta("r".to_string()))
    );
    assert_eq!(
        delta_event(delta("c", Some("r"))),
        Some(StreamEvent::ReasoningDelta("r".to_string()))
    );
    assert_eq!(
        delta_event(delta(" ", None)),
        Some(StreamEvent::ContentDelta(" ".to_string(), Sender::Assistant))
    );
}

#[test]
fn events_are_taken_in_order() {
    let mut requester = requester(true);
    requester.request("q".to_string());
    let output = requester.receive(&vec![
        StreamEvent::ContentDelta("a".to_string(), Sender::Assistant),
        StreamEvent::ReasoningDelta("ignored".to_string()),
        StreamEvent::ContentDelta("b".to_string(), Sender::Assistant),
    ]);
    assert_eq!(
        output,
        vec![
            Render::AnswerHeader,
            Render::Answer("a".to_string()),
            Render::Answer("b".to_string()),
        ]
    );
    assert_eq!(requester.transcript().len(), 2);
    let output = requester.receive(&vec![StreamEvent::End, StreamEvent::End]);
    assert_eq!(output, vec![Render::LineBreak]);
    assert_eq!(requester.transcript().len(), 3);
    assert_eq!(requester.transcript().get(2), &Message::new(Sender::Assistant, "ab".to_string()));
    assert_eq!(requester.receive(&vec![]), Vec::<Render>::new());
}

#[test]
fn a_reply_is_kept_without_its_reasoning() {
    let mut requester = requester(false);
    requester.request("q".to_string());
    let output = requester.accept_reply(Message {
        role: Sender::Assistant,
        content: "a".to_string(),
        reasoning: Some(String::new()),
    });
    assert_eq!(
        output,
        vec![
            Render::ThinkingHeader,
            Render::Reasoning(String::new()),
            Render::LineBreak,
            Render::AnswerHeader,
            Render::Answer("a".to_string()),
            Render::LineBreak,
        ]
    );
    assert_eq!(requester.transcript().get(2), &Message::new(Sender::Assistant, "a".to_string()));
}

#[test]
fn numbers_are_written_in_decimal() {
    assert_eq!(decimal_text(0), "0");
    assert_eq!(decimal_text(7), "7");
    assert_eq!(decimal_text(10), "10");
    assert_eq!(decimal_text(404), "404");
    assert_eq!(decimal_text(1009), "1009");
    assert_eq!(decimal_text(65535), "65535");
}

#[test]
fn errors_are_told_in_words() {
    assert_eq!(RequestError::Status(404).message(), "response code: 404");
    assert_eq!(RequestError::Status(500).message(), "response code: 500");
    assert_eq!(RequestError::Malformed.message(), "malformed response");
    assert_eq!(RequestError::EmptyChoice.message(), "response without choices");
    assert_eq!(ConfigError::UnknownModel.message(), "model not found in the configuration");
    assert_eq!(ConfigError::MissingCredential.message(), "no API key was given");
}

#[test]
fn models_are_read_from_their_objects() {
    let good = object(vec![("access_point", text("ap")), ("base_url", text("host"))]);
    assert_eq!(
        Model::from_json(&good),
        Some(Model { access_point: "ap".to_string(), base_url: Some("host".to_string()) })
    );
    assert_eq!(Model::from_json(&object(vec![("base_url", text("host"))])), None);
    assert_eq!(Model::from_json(&text("ap")), None);
    let config = object(vec![
        ("models", object(vec![("one", good)])),
        ("timeout", Json::Number(Some(3))),
    ]);
    let models = Models::from_json(&config).unwrap();
    assert_eq!(models.get(&"one".to_string()).unwrap().access_point, "ap");
    let config = Config::from_json(&config).unwrap();
    assert_eq!(config.timeout, 3);
    assert_eq!(config.prompt, "");
    assert!(Models::from_json(&object(vec![("models", Json::Null)])).is_none());
    assert!(Models::from_json(&object(vec![])).is_some());
    assert!(Config::from_json(&Json::Array(vec![])).is_none());
    assert!(Config::from_json(&object(vec![("timeout", Json::Number(None))])).is_none());
}
