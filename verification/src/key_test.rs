//! The test of an API key: open a session with it, and see what the speech
//! service answers.

use vstd::prelude::*;

use crate::json::{json_text, Json};
use crate::service::{basic_config, key_test_message};
use crate::text::{trim, trimmed};
use crate::transcript::SonioxMessage;

verus! {

/// The seconds to wait for a connection.
pub const CONNECT_SECONDS: u64 = 8;

/// The seconds to wait for an answer.
pub const ANSWER_SECONDS: u64 = 5;

/// What the speech service answers.
#[derive(Debug)]
pub enum Answer {
    /// A text message: what it says, if it could be read.
    Text(Option<SonioxMessage>),
    /// A message of another kind.
    Other,
    /// The service closed the connection, with its reason if it gave one.
    Closed(Option<String>),
    /// The connection failed, and why.
    Failed(String),
    /// There are no more messages.
    Ended,
}

/// What happens during the test.
#[derive(Debug)]
pub enum TestEvent {
    Connected,
    ConnectTimedOut,
    ConnectFailed,
    ConfigSent,
    SendFailed,
    Answered(Answer),
    AnswerTimedOut,
}

/// What to do next in the test.
#[derive(Debug)]
pub enum TestAction {
    /// Send the configuration.
    Send(String),
    /// Wait for the next answer.
    Await,
    /// Close the connection; the test is over, with this outcome.
    Close(Result<(), String>),
    /// The test is over, with this outcome; there is no connection to close.
    Finish(Result<(), String>),
}

/// The key is there: it is more than white space.
pub open spec fn is_given(key: Seq<char>) -> bool {
    trimmed(key).len() > 0
}

/// Checks that there is a key to test.
pub fn check_key(key: &str) -> (checked: Result<(), String>)
    ensures
        match checked {
            Ok(()) => is_given(key@),
            Err(error) => !is_given(key@) && error@ == "Empty key"@,
        },
{
    if trim(key).as_str().is_empty() {
        Err("Empty key".to_string())
    } else {
        Ok(())
    }
}

/// What an answer says about the key. A message that reports no error, or
/// that cannot be read, accepts it, and so does the end of the messages. A
/// message of another kind says nothing.
pub open spec fn verdict(answer: Answer) -> Option<Result<(), Seq<char>>> {
    match answer {
        Answer::Text(Some(message)) => match message.error {
            Some(error) => Some(Err("Soniox: "@ + error@)),
            None => Some(Ok(())),
        },
        Answer::Text(None) => Some(Ok(())),
        Answer::Other => None,
        Answer::Closed(Some(reason)) => Some(Err("Server closed: "@ + reason@)),
        Answer::Closed(None) => Some(Err("Server closed connection"@)),
        Answer::Failed(failure) => Some(Err("WS error: "@ + failure@)),
        Answer::Ended => Some(Ok(())),
    }
}

/// The outcome is the given one, its error by its text.
pub open spec fn says(outcome: Result<(), String>, expected: Result<(), Seq<char>>) -> bool {
    match (outcome, expected) {
        (Ok(()), Ok(())) => true,
        (Err(error), Err(text)) => error@ == text,
        _ => false,
    }
}

/// Two texts, one after the other.
fn joined(first: &str, second: &str) -> (text: String)
    ensures
        text@ == first@ + second@,
{
    let mut text = first.to_string();
    text.append(second);
    text
}

/// What an answer says about the key.
pub fn judge(answer: Answer) -> (outcome: Option<Result<(), String>>)
    ensures
        match verdict(answer) {
            Some(expected) => outcome matches Some(said) && says(said, expected),
            None => outcome is None,
        },
{
    match answer {
        Answer::Text(Some(message)) => match message.error {
            Some(error) => Some(Err(joined("Soniox: ", error.as_str()))),
            None => Some(Ok(())),
        },
        Answer::Text(None) => Some(Ok(())),
        Answer::Other => None,
        Answer::Closed(Some(reason)) => Some(Err(joined("Server closed: ", reason.as_str()))),
        Answer::Closed(None) => Some(Err("Server closed connection".to_string())),
        Answer::Failed(failure) => Some(Err(joined("WS error: ", failure.as_str()))),
        Answer::Ended => Some(Ok(())),
    }
}

/// Decides what to do next in the test of a key. When no answer comes in time
/// the key counts as accepted: the service is waiting for sound.
pub fn test_api_key(api_key: &str, event: TestEvent) -> (action: TestAction)
    ensures
        match event {
            TestEvent::Connected => action matches TestAction::Send(message) && message@
                == json_text(Json::Object(basic_config(api_key@))),
            TestEvent::ConnectTimedOut => action matches TestAction::Finish(outcome) && says(
                outcome,
                Err("Connection timed out"@),
            ),
            TestEvent::ConnectFailed => action matches TestAction::Finish(outcome) && says(
                outcome,
                Err("Failed to connect to Soniox"@),
            ),
            TestEvent::ConfigSent => action is Await,
            TestEvent::SendFailed => action matches TestAction::Finish(outcome) && says(
                outcome,
                Err("Failed to send config"@),
            ),
            TestEvent::Answered(answer) => match verdict(answer) {
                Some(expected) => action matches TestAction::Close(outcome) && says(
                    outcome,
                    expected,
                ),
                None => action is Await,
            },
            TestEvent::AnswerTimedOut => action matches TestAction::Close(outcome) && says(
                outcome,
                Ok(()),
            ),
        },
{
    match event {
        TestEvent::Connected => TestAction::Send(key_test_message(api_key)),
        TestEvent::ConnectTimedOut => TestAction::Finish(Err("Connection timed out".to_string())),
        TestEvent::ConnectFailed => TestAction::Finish(
            Err("Failed to connect to Soniox".to_string()),
        ),
        TestEvent::ConfigSent => TestAction::Await,
        TestEvent::SendFailed => TestAction::Finish(Err("Failed to send config".to_string())),
        TestEvent::Answered(answer) => match judge(answer) {
            Some(outcome) => TestAction::Close(outcome),
            None => TestAction::Await,
        },
        TestEvent::AnswerTimedOut => TestAction::Close(Ok(())),
    }
}

/// The service alone rejects a key: an answer does so only if it reports an
/// error, closes the connection or comes of a failed one.
pub proof fn law_only_refusals_reject(answer: Answer)
    ensures
        verdict(answer) matches Some(Err(_)) <==> match answer {
            Answer::Text(Some(message)) => message.error is Some,
            Answer::Closed(_) | Answer::Failed(_) => true,
            _ => false,
        },
{
}

} // verus!
