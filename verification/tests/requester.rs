use clai::ai::{check_status, Request, Requester};
use clai::config::{Config, Model, Models};
use clai::error::{ConfigError, RequestError};
use clai::parameter::Parameter;
use clai::session::Render;
use clai::transcript::{Message, Sender, Transcript};

fn sample_config() -> Config {
    let mut models = Models::new();
    models.insert(
        "v3".to_string(),
        Model { access_point: "deepseek-chat".to_string(), base_url: None },
    );
    models.insert(
        "far".to_string(),
        Model { access_point: "far-model".to_string(), base_url: Some("far.example.org".to_string()) },
    );
    Config {
        prompt: "from config".to_string(),
        timeout: 1800,
        default_model: "v3".to_string(),
        base_url: "api.example.com".to_string(),
        models,
    }
}

fn bare_parameter() -> Parameter {
    Parameter {
        query: None,
        prompt: None,
        timeout: None,
        interactive: false,
        model: None,
        stream: false,
    }
}

fn requester() -> Requester {
    Requester::new(&bare_parameter(), &sample_config(), Some("k".to_string())).unwrap()
}

#[test]
fn a_requester_takes_its_defaults_from_the_configuration() {
    let requester = requester();
    assert_eq!(requester.model(), "deepseek-chat");
    assert_eq!(requester.endpoint(), "https://api.example.com/chat/completions");
    assert_eq!(requester.authorization(), "Bearer k");
    assert_eq!(requester.timeout(), 1800);
    assert!(!requester.streaming());
    assert_eq!(requester.transcript().len(), 1);
    assert_eq!(
        requester.transcript().get(0),
        &Message { role: Sender::System, content: "from config".to_string(), reasoning: None }
    );
}

#[test]
fn the_command_line_goes_before_the_configuration() {
    let parameter = Parameter {
        query: Some("q".to_string()),
        prompt: Some("from flag".to_string()),
        timeout: Some(5),
        interactive: true,
        model: Some("far".to_string()),
        stream: true,
    };
    let requester =
        Requester::new(&parameter, &sample_config(), Some("key".to_string())).unwrap();
    assert_eq!(requester.model(), "far-model");
    assert_eq!(requester.endpoint(), "https://far.example.org/chat/completions");
    assert_eq!(requester.authorization(), "Bearer key");
    assert_eq!(requester.timeout(), 5);
    assert!(requester.streaming());
    assert_eq!(requester.transcript().get(0).content, "from flag");
}

#[test]
fn a_model_that_is_not_configured_is_refused() {
    let mut parameter = bare_parameter();
    parameter.model = Some("nope".to_string());
    let res = Requester::new(&parameter, &sample_config(), Some("k".to_string()));
    assert_eq!(res.err(), Some(ConfigError::UnknownModel));
    let res = Requester::new(&parameter, &sample_config(), None);
    assert_eq!(res.err(), Some(ConfigError::UnknownModel));
    let empty = Config::fill_config(None);
    let res = Requester::new(&bare_parameter(), &empty, Some("k".to_string()));
    assert_eq!(res.err(), Some(ConfigError::UnknownModel));
}

#[test]
fn a_missing_key_is_refused() {
    let res = Requester::new(&bare_parameter(), &sample_config(), None);
    assert_eq!(res.err(), Some(ConfigError::MissingCredential));
}

#[test]
fn a_request_carries_the_whole_transcript() {
    let mut requester = requester();
    requester.request("first question".to_string());
    {
        let body = requester.body();
        assert_eq!(body.model, "deepseek-chat");
        assert!(!body.stream);
        assert_eq!(body.temperature, 0);
        assert_eq!(
            body.messages,
            &vec![
                Message::new(Sender::System, "from config".to_string()),
                Message::new(Sender::User, "first question".to_string()),
            ]
        );
    }
    let output = requester
        .resolve_response(
            b"{\"choices\":[{\"message\":{\"role\":\"assistant\",\"content\":\"first answer\"}}]}",
        )
        .unwrap();
    assert_eq!(
        output,
        vec![Render::AnswerHeader, Render::Answer("first answer".to_string()), Render::LineBreak]
    );
    requester.request("second question".to_string());
    let body = requester.body();
    assert_eq!(body.messages.len(), 4);
    assert_eq!(body.messages[2], Message::new(Sender::Assistant, "first answer".to_string()));
    assert_eq!(body.messages[3], Message::new(Sender::User, "second question".to_string()));
}

#[test]
fn request_new_sets_temperature_zero() {
    let model = "m".to_string();
    let messages = vec![Message::new(Sender::System, "p".to_string())];
    let request = Request::new(&model, &messages, true);
    assert_eq!(request.model, "m");
    assert!(request.stream);
    assert_eq!(request.messages, &messages);
    assert_eq!(request.temperature, 0);
}

#[test]
fn a_whole_reply_shows_its_reasoning_but_does_not_keep_it() {
    let mut requester = requester();
    requester.request("why?".to_string());
    let output = requester
        .resolve_response(
            b"{\"choices\":[{\"message\":{\"role\":\"assistant\",\"content\":\" because \",\"reasoning_content\":\"thinking\"}}]}",
        )
        .unwrap();
    assert_eq!(
        output,
        vec![
            Render::ThinkingHeader,
            Render::Reasoning("thinking".to_string()),
            Render::LineBreak,
            Render::AnswerHeader,
            Render::Answer(" because ".to_string()),
            Render::LineBreak,
        ]
    );
    assert_eq!(requester.transcript().len(), 3);
    assert_eq!(
        requester.transcript().get(2),
        &Message { role: Sender::Assistant, content: " because ".to_string(), reasoning: None }
    );
}

#[test]
fn an_empty_list_of_choices_is_an_error_and_changes_nothing() {
    let mut requester = requester();
    requester.request("anyone?".to_string());
    let res = requester.resolve_response(b"{\"choices\":[]}");
    assert_eq!(res, Err(RequestError::EmptyChoice));
    assert_eq!(requester.transcript().len(), 2);
    assert_eq!(requester.transcript().get(1), &Message::new(Sender::User, "anyone?".to_string()));
}

#[test]
fn a_body_that_is_no_reply_is_malformed() {
    let mut requester = requester();
    requester.request("anyone?".to_string());
    for body in [
        &b"not json"[..],
        b"",
        b"{}",
        b"{\"choices\":null}",
        b"{\"choices\":[{\"delta\":{\"role\":\"assistant\",\"content\":\"x\"}}]}",
        b"{\"choices\":[{\"message\":{\"role\":\"assistant\",\"content\":null}}]}",
        b"{\"choices\":[{\"message\":{\"role\":\"assistant\",\"content\":\"x\"}}]} trailing",
    ] {
        assert_eq!(requester.resolve_response(body), Err(RequestError::Malformed));
        assert_eq!(requester.transcript().len(), 2);
    }
}

#[test]
fn only_statuses_from_200_to_299_go_on() {
    assert_eq!(check_status(200), Ok(()));
    assert_eq!(check_status(204), Ok(()));
    assert_eq!(check_status(299), Ok(()));
    assert_eq!(check_status(199), Err(RequestError::Status(199)));
    assert_eq!(check_status(300), Err(RequestError::Status(300)));
    assert_eq!(check_status(404), Err(RequestError::Status(404)));
    assert_eq!(check_status(500), Err(RequestError::Status(500)));
    assert_eq!(check_status(0), Err(RequestError::Status(0)));
}

#[test]
fn a_transcript_grows_at_its_end() {
    let mut transcript = Transcript::new("rules".to_string());
    assert_eq!(transcript.len(), 1);
    assert_eq!(transcript.get(0), &Message::new(Sender::System, "rules".to_string()));
    transcript.push(Message::new(Sender::User, "a".to_string()));
    transcript.push(Message {
        role: Sender::Assistant,
        content: "b".to_string(),
        reasoning: Some("c".to_string()),
    });
    assert_eq!(transcript.len(), 3);
    assert_eq!(transcript.get(0).role, Sender::System);
    assert_eq!(transcript.get(1).content, "a");
    assert_eq!(transcript.get(2).reasoning, Some("c".to_string()));
    assert_eq!(transcript.messages().len(), 3);
}

#[test]
fn senders_have_their_protocol_names() {
    assert_eq!(Sender::System.as_str(), "system");
    assert_eq!(Sender::User.as_str(), "user");
    assert_eq!(Sender::Assistant.as_str(), "assistant");
    for sender in [Sender::System, Sender::User, Sender::Assistant] {
        assert_eq!(Sender::from_role(&sender.as_str().to_string()), Some(sender));
    }
    assert_eq!(Sender::from_role(&"Assistant".to_string()), None);
    assert_eq!(Sender::from_role(&String::new()), None);
    assert_eq!(Sender::from_role(&"tool".to_string()), None);
}
