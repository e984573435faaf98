//! What can go wrong.

use vstd::prelude::*;

verus! {

/// Why no requester could be set up.
#[derive(Clone, Copy, Debug, PartialEq, Eq, Structural)]
pub enum ConfigError {
    /// The configuration has no entry for the model that was asked for.
    UnknownModel,
    /// No API key was given.
    MissingCredential,
}

/// Why one turn of the conversation failed. The conversation itself goes on.
#[derive(Clone, Copy, Debug, PartialEq, Eq, Structural)]
pub enum RequestError {
    /// The server answered with a status outside 200..=299.
    Status(u16),
    /// A response body or a streamed frame is not the JSON that the protocol
    /// asks for.
    Malformed,
    /// The response is well-formed but its list of choices is empty.
    EmptyChoice,
}

/// The character of a decimal digit.
pub open spec fn digit(d: nat) -> char {
    if d == 0 {
        '0'
    } else if d == 1 {
        '1'
    } else if d == 2 {
        '2'
    } else if d == 3 {
        '3'
    } else if d == 4 {
        '4'
    } else if d == 5 {
        '5'
    } else if d == 6 {
        '6'
    } else if d == 7 {
        '7'
    } else if d == 8 {
        '8'
    } else {
        '9'
    }
}

/// `n` in decimal, without leading zeros.
pub open spec fn decimal(n: nat) -> Seq<char>
    decreases n,
{
    if n < 10 {
        seq![digit(n)]
    } else {
        decimal(n / 10).push(digit(n % 10))
    }
}

fn digit_text(d: u16) -> (text: &'static str)
    requires
        d < 10,
    ensures
        text@ == seq![digit(d as nat)],
{
    proof {
        reveal_strlit("0");
        reveal_strlit("1");
        reveal_strlit("2");
        reveal_strlit("3");
        reveal_strlit("4");
        reveal_strlit("5");
        reveal_strlit("6");
        reveal_strlit("7");
        reveal_strlit("8");
        reveal_strlit("9");
    }
    let text = if d == 0 {
        "0"
    } else if d == 1 {
        "1"
    } else if d == 2 {
        "2"
    } else if d == 3 {
        "3"
    } else if d == 4 {
        "4"
    } else if d == 5 {
        "5"
    } else if d == 6 {
        "6"
    } else if d == 7 {
        "7"
    } else if d == 8 {
        "8"
    } else {
        "9"
    };
    assert(text@ =~= seq![digit(d as nat)]);
    text
}

/// Writes `n` in decimal.
pub fn decimal_text(n: u16) -> (text: String)
    ensures
        text@ == decimal(n as nat),
    decreases n,
{
    if n < 10 {
        digit_text(n).to_owned()
    } else {
        let mut text = decimal_text(n / 10);
        text.append(digit_text(n % 10));
        assert(text@ =~= decimal(n as nat));
        text
    }
}

impl RequestError {
    /// The error in words; a status is given by its number.
    pub open spec fn message_of(self) -> Seq<char> {
        match self {
            RequestError::Status(code) => "response code: "@ + decimal(code as nat),
            RequestError::Malformed => "malformed response"@,
            RequestError::EmptyChoice => "response without choices"@,
        }
    }

    /// The error in words, for the user.
    pub fn message(&self) -> (text: String)
        ensures
            text@ == self.message_of(),
    {
        match self {
            RequestError::Status(code) => {
                let mut text = "response code: ".to_owned();
                text.append(decimal_text(*code).as_str());
                text
            },
            RequestError::Malformed => "malformed response".to_owned(),
            RequestError::EmptyChoice => "response without choices".to_owned(),
        }
    }
}

impl ConfigError {
    /// The error in words.
    pub open spec fn message_of(self) -> Seq<char> {
        match self {
            ConfigError::UnknownModel => "model not found in the configuration"@,
            ConfigError::MissingCredential => "no API key was given"@,
        }
    }

    /// The error in words, for the user.
    pub fn message(&self) -> (text: String)
        ensures
            text@ == self.message_of(),
    {
        match self {
            ConfigError::UnknownModel => "model not found in the configuration".to_owned(),
            ConfigError::MissingCredential => "no API key was given".to_owned(),
        }
    }
}

} // verus!
