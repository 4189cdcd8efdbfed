//! The test of an API key.

use vstd::prelude::*;

use crate::key_test::{
    check_key, judge, test_api_key, Answer, TestAction, TestEvent, ANSWER_SECONDS, CONNECT_SECONDS,
};
use crate::laws::text::law_trimmed;
use crate::service::key_test_message;
use crate::text::{is_white_space, trimmed};

verus! {

/// The test waits eight seconds for a connection and five for an answer.
pub proof fn law_waits()
    ensures
        CONNECT_SECONDS == 8,
        ANSWER_SECONDS == 5,
{
}

/// There is a key to test just if some character of it is not white space.
pub proof fn law_check_key(key: &str, checked: Result<(), String>)
    requires
        call_ensures(check_key, (key,), checked),
    ensures
        checked is Ok <==> exists|i: int|
            0 <= i < key@.len() && !is_white_space(#[trigger] key@[i]),
        checked is Err ==> checked->Err_0@ == "Empty key"@,
{
    law_trimmed(key@);
    let short = trimmed(key@);
    let (from, to) = choose|from: int, to: int| #[trigger]
        key@.subrange(from, to) == short && 0 <= from <= to <= key@.len() && (forall|i: int|
            0 <= i < from || to <= i < key@.len() ==> is_white_space(#[trigger] key@[i]));
    if short.len() > 0 {
        assert(short.first() == key@[from]);
        assert(!is_white_space(key@[from]));
    } else {
        assert(from == to);
        assert forall|i: int| 0 <= i < key@.len() implies is_white_space(#[trigger] key@[i]) by {}
    }
}

/// A text answer rejects the key just if it can be read and reports an error,
/// which is passed on.
pub proof fn law_judge_text(answer: Answer, outcome: Option<Result<(), String>>)
    requires
        call_ensures(judge, (answer,), outcome),
        answer is Text,
    ensures
        outcome is Some,
        (answer->Text_0 matches Some(message) && message.error is Some) ==> outcome->0 is Err
            && outcome->0->Err_0@ == "Soniox: "@ + answer->Text_0->0.error->0@,
        !(answer->Text_0 matches Some(message) && message.error is Some) ==> outcome->0 is Ok,
{
}

/// A closed connection rejects the key, with the reason if there is one, and so
/// does a failed one. The end of the messages accepts it, and a message of
/// another kind settles nothing.
pub proof fn law_judge_other(answer: Answer, outcome: Option<Result<(), String>>)
    requires
        call_ensures(judge, (answer,), outcome),
    ensures
        answer is Other <==> outcome is None,
        answer is Ended ==> outcome is Some && outcome->0 is Ok,
        answer matches Answer::Closed(Some(reason)) ==> outcome is Some && outcome->0 is Err
            && outcome->0->Err_0@ == "Server closed: "@ + reason@,
        answer matches Answer::Closed(None) ==> outcome is Some && outcome->0 is Err
            && outcome->0->Err_0@ == "Server closed connection"@,
        answer matches Answer::Failed(failure) ==> outcome is Some && outcome->0 is Err
            && outcome->0->Err_0@ == "WS error: "@ + failure@,
{
}

/// Before there is an answer: a connection is followed by the message that
/// begins the test, and that by waiting. Where either fails the test is over,
/// and the reason is given.
pub proof fn law_test_begins(
    api_key: &str,
    message: String,
    event: TestEvent,
    action: TestAction,
)
    requires
        call_ensures(key_test_message, (api_key,), message),
        call_ensures(test_api_key, (api_key, event), action),
    ensures
        event is Connected ==> action is Send && action->Send_0@ == message@,
        event is ConfigSent ==> action is Await,
        event is ConnectTimedOut ==> action is Finish && action->Finish_0 is Err
            && action->Finish_0->Err_0@ == "Connection timed out"@,
        event is ConnectFailed ==> action is Finish && action->Finish_0 is Err
            && action->Finish_0->Err_0@ == "Failed to connect to Soniox"@,
        event is SendFailed ==> action is Finish && action->Finish_0 is Err
            && action->Finish_0->Err_0@ == "Failed to send config"@,
        event is AnswerTimedOut ==> action is Close && action->Close_0 is Ok,
{
}

/// An answer ends the test with what it says of the key; one that says nothing
/// is waited past.
pub proof fn law_test_is_answered(
    api_key: &str,
    answer: Answer,
    outcome: Option<Result<(), String>>,
    action: TestAction,
)
    requires
        call_ensures(judge, (answer,), outcome),
        call_ensures(test_api_key, (api_key, TestEvent::Answered(answer)), action),
    ensures
        outcome is None ==> action is Await,
        outcome is Some ==> action is Close && (action->Close_0 is Ok <==> outcome->0 is Ok),
        outcome is Some && outcome->0 is Err ==> action->Close_0->Err_0@ == outcome->0->Err_0@,
{
}

} // verus!
