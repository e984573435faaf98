//! The conversation: who said what, in order.

use vstd::prelude::*;

verus! {

/// Who a message is from.
#[derive(Clone, Copy, Debug, PartialEq, Eq, Structural)]
pub enum Sender {
    System,
    User,
    Assistant,
}

impl Sender {
    /// The name by which the wire protocol calls this sender.
    pub open spec fn role_name(self) -> Seq<char> {
        match self {
            Sender::System => "system"@,
            Sender::User => "user"@,
            Sender::Assistant => "assistant"@,
        }
    }

    /// The sender that the wire protocol calls `role`, if it names one.
    pub open spec fn named(role: Seq<char>) -> Option<Sender> {
        if role == "system"@ {
            Some(Sender::System)
        } else if role == "user"@ {
            Some(Sender::User)
        } else if role == "assistant"@ {
            Some(Sender::Assistant)
        } else {
            None
        }
    }

    /// The protocol's name for this sender.
    pub fn as_str(&self) -> (name: &'static str)
        ensures
            name@ == self.role_name(),
    {
        match self {
            Sender::System => "system",
            Sender::User => "user",
            Sender::Assistant => "assistant",
        }
    }

    /// Reads a protocol role name; `None` for any other text.
    pub fn from_role(role: &String) -> (res: Option<Sender>)
        ensures
            res == Sender::named(role@),
    {
        if *role == "system".to_owned() {
            Some(Sender::System)
        } else if *role == "user".to_owned() {
            Some(Sender::User)
        } else if *role == "assistant".to_owned() {
            Some(Sender::Assistant)
        } else {
            None
        }
    }
}

/// Reading a sender's own name gives that sender back.
pub proof fn lemma_role_names_distinct(sender: Sender)
    ensures
        Sender::named(sender.role_name()) == Some(sender),
{
    reveal_strlit("system");
    reveal_strlit("user");
    reveal_strlit("assistant");
    assert("system"@.len() == 6);
    assert("user"@.len() == 4);
    assert("assistant"@.len() == 9);
}

/// One message of a conversation.
#[derive(Debug, PartialEq, Eq)]
pub struct Message {
    pub role: Sender,
    pub content: String,
    /// The model's reasoning, where it is kept with the message.
    pub reasoning: Option<String>,
}

/// A [`Message`] in specifications.
pub ghost struct MessageView {
    pub role: Sender,
    pub content: Seq<char>,
    pub reasoning: Option<Seq<char>>,
}

impl View for Message {
    type V = MessageView;

    open spec fn view(&self) -> MessageView {
        MessageView {
            role: self.role,
            content: self.content@,
            reasoning: match self.reasoning {
                Some(text) => Some(text@),
                None => None,
            },
        }
    }
}

impl Message {
    /// A message without reasoning.
    pub fn new(role: Sender, content: String) -> (message: Message)
        ensures
            message@ == plain_message(role, content@),
    {
        Message { role, content, reasoning: None }
    }
}

/// The message from `role` that says `content` and keeps no reasoning.
pub open spec fn plain_message(role: Sender, content: Seq<char>) -> MessageView {
    MessageView { role, content, reasoning: None }
}

/// A conversation's history. It opens with the system prompt and only ever
/// grows at its end.
#[derive(Debug, PartialEq, Eq)]
pub struct Transcript {
    messages: Vec<Message>,
}

impl View for Transcript {
    type V = Seq<MessageView>;

    closed spec fn view(&self) -> Seq<MessageView> {
        self.messages@.map_values(|m: Message| m@)
    }
}

/// Whether a history opens with a system message, as every conversation does.
pub open spec fn opens_with_system(history: Seq<MessageView>) -> bool {
    history.len() > 0 && history[0].role == Sender::System
}

impl Transcript {
    /// A conversation that holds only the system prompt.
    pub fn new(prompt: String) -> (transcript: Transcript)
        ensures
            transcript@ == seq![plain_message(Sender::System, prompt@)],
            opens_with_system(transcript@),
    {
        let mut messages: Vec<Message> = Vec::new();
        messages.push(Message::new(Sender::System, prompt));
        let transcript = Transcript { messages };
        assert(transcript@ =~= seq![plain_message(Sender::System, prompt@)]);
        transcript
    }

    /// The number of messages, the system prompt included.
    pub fn len(&self) -> (n: usize)
        ensures
            n == self@.len(),
    {
        self.messages.len()
    }

    /// The message at `index`.
    pub fn get(&self, index: usize) -> (message: &Message)
        requires
            index < self@.len(),
        ensures
            message@ == self@[index as int],
    {
        &self.messages[index]
    }

    /// All messages, oldest first.
    pub fn messages(&self) -> (all: &Vec<Message>)
        ensures
            all@.map_values(|m: Message| m@) == self@,
    {
        &self.messages
    }

    /// Adds `message` at the end; what was there stays as it was.
    pub fn push(&mut self, message: Message)
        ensures
            final(self)@ == old(self)@.push(message@),
    {
        self.messages.push(message);
        assert(self@ =~= old(self)@.push(message@));
    }
}

/// A history that grows only at its end keeps its opening system message.
pub proof fn lemma_growth_keeps_opening(before: Seq<MessageView>, after: Seq<MessageView>)
    requires
        opens_with_system(before),
        before.is_prefix_of(after),
    ensures
        opens_with_system(after),
{
    assert(after[0] == before[0]);
}

} // verus!
