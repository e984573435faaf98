//! The shapes of the wire protocol's JSON objects.
//!
//! A response carries a list `choices`; only its first entry is read. In a
//! whole response that entry holds a `message`, in a streamed frame a `delta`;
//! both have a `role`, a `content` and, optionally, a `reasoning_content`.

use vstd::prelude::*;
use crate::error::RequestError;
use crate::json::Json;
use crate::transcript::{Message, MessageView, Sender};

verus! {

/// What an optional text member holds: `Some(None)` where it is missing or
/// null, `Some(Some(text))` for a string, `None` for anything else.
pub open spec fn optional_text(object: Json, name: Seq<char>) -> Option<Option<Seq<char>>> {
    match object.field(name) {
        None => Some(None),
        Some(Json::Null) => Some(None),
        Some(Json::Text(text)) => Some(Some(text@)),
        Some(_) => None,
    }
}

/// What a required text member holds; `None` where it is missing or no string.
pub open spec fn required_text(object: Json, name: Seq<char>) -> Option<Seq<char>> {
    match object.field(name) {
        Some(Json::Text(text)) => Some(text@),
        _ => None,
    }
}

/// The message that a `message` or `delta` object spells: its `role` names a
/// sender, its `content` is a string, and its `reasoning_content` is a string,
/// null or missing. `None` for any other value.
pub open spec fn message_of(object: Json) -> Option<MessageView> {
    match (
        required_text(object, "role"@),
        required_text(object, "content"@),
        optional_text(object, "reasoning_content"@),
    ) {
        (Some(role), Some(content), Some(reasoning)) => match Sender::named(role) {
            Some(sender) => Some(MessageView { role: sender, content, reasoning }),
            None => None,
        },
        _ => None,
    }
}

/// What the first choice of a response holds under `slot`: an empty list of
/// choices is an error of its own; a document without a list of choices, or
/// whose first choice holds no message under `slot`, is malformed.
pub open spec fn first_choice(doc: Json, slot: Seq<char>) -> Result<MessageView, RequestError> {
    match doc.field("choices"@) {
        Some(Json::Array(choices)) => if choices@.len() == 0 {
            Err(RequestError::EmptyChoice)
        } else {
            match choices@[0].field(slot) {
                Some(object) => match message_of(object) {
                    Some(message) => Ok(message),
                    None => Err(RequestError::Malformed),
                },
                None => Err(RequestError::Malformed),
            }
        },
        _ => Err(RequestError::Malformed),
    }
}

pub(crate) fn read_required_text(object: &Json, name: &str) -> (res: Option<String>)
    ensures
        match res {
            Some(text) => required_text(*object, name@) == Some(text@),
            None => required_text(*object, name@) is None,
        },
{
    match object.get(name) {
        Some(Json::Text(text)) => Some(text.clone()),
        _ => None,
    }
}

pub(crate) fn read_optional_text(object: &Json, name: &str) -> (res: Option<Option<String>>)
    ensures
        match res {
            Some(Some(text)) => optional_text(*object, name@) == Some(Some(text@)),
            Some(None) => optional_text(*object, name@) == Some(None::<Seq<char>>),
            None => optional_text(*object, name@) is None,
        },
{
    match object.get(name) {
        None => Some(None),
        Some(Json::Null) => Some(None),
        Some(Json::Text(text)) => Some(Some(text.clone())),
        Some(_) => None,
    }
}

/// Reads a `message` or `delta` object.
pub fn decode_message(object: &Json) -> (res: Option<Message>)
    ensures
        match res {
            Some(message) => message_of(*object) == Some(message@),
            None => message_of(*object) is None,
        },
{
    let role = match read_required_text(object, "role") {
        Some(role) => role,
        None => {
            return None;
        },
    };
    let content = match read_required_text(object, "content") {
        Some(content) => content,
        None => {
            return None;
        },
    };
    let reasoning = match read_optional_text(object, "reasoning_content") {
        Some(reasoning) => reasoning,
        None => {
            return None;
        },
    };
    match Sender::from_role(&role) {
        Some(sender) => Some(Message { role: sender, content, reasoning }),
        None => None,
    }
}

/// Reads what the first choice of a response holds under `slot`.
pub fn decode_first_choice(doc: &Json, slot: &str) -> (res: Result<Message, RequestError>)
    ensures
        match res {
            Ok(message) => first_choice(*doc, slot@) == Ok::<MessageView, RequestError>(message@),
            Err(error) => first_choice(*doc, slot@) == Err::<MessageView, RequestError>(error),
        },
{
    match doc.get("choices") {
        Some(Json::Array(choices)) => {
            if choices.len() == 0 {
                return Err(RequestError::EmptyChoice);
            }
            match choices[0].get(slot) {
                Some(object) => match decode_message(object) {
                    Some(message) => Ok(message),
                    None => Err(RequestError::Malformed),
                },
                None => Err(RequestError::Malformed),
            }
        },
        _ => Err(RequestError::Malformed),
    }
}

} // verus!
