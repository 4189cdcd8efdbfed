//! The messages that the speech service is sent: what they say, and when.

use vstd::prelude::*;

use crate::json::{
    array_value, bool_value, insert_member, json_list, json_of, json_text, members_of,
    new_members, number_value, object_value, text_value, write_json, Json,
};
use crate::text::{chars_if_any, decimal};

verus! {

/// The address of the speech service.
pub const SONIOX_WS_URL: &'static str = "wss://stt-rt.soniox.com/transcribe-websocket";

/// The number of samples per second that the speech service is sent.
pub const TARGET_SAMPLE_RATE: u32 = 16000;

/// The members of a configuration that every session begins with.
pub open spec fn basic_config(api_key: Seq<char>) -> Map<Seq<char>, Json> {
    Map::empty().insert("api_key"@, Json::Text(api_key)).insert(
        "model"@,
        Json::Text("stt-rt-v4"@),
    ).insert("audio_format"@, Json::Text("pcm_s16le"@)).insert(
        "sample_rate"@,
        Json::Number(decimal(TARGET_SAMPLE_RATE as int)),
    ).insert("num_channels"@, Json::Number(decimal(1)))
}

/// The language that speech is expected in, if one is given: neither the empty
/// text nor `auto` is one.
pub open spec fn hinted_language(language: Option<Seq<char>>) -> Option<Seq<char>> {
    match language {
        Some(name) => if name.len() > 0 && name != "auto"@ {
            Some(name)
        } else {
            None
        },
        None => None,
    }
}

/// The language that speech is translated to, if one is given: neither the
/// empty text nor `none` is one.
pub open spec fn translated_language(target: Option<Seq<char>>) -> Option<Seq<char>> {
    match target {
        Some(name) => if name.len() > 0 && name != "none"@ {
            Some(name)
        } else {
            None
        },
        None => None,
    }
}

/// The request to translate to the given language.
pub open spec fn translation(target: Seq<char>) -> Json {
    Json::Object(
        Map::empty().insert("type"@, Json::Text("one_way"@)).insert(
            "target_language"@,
            Json::Text(target),
        ),
    )
}

/// The members of the configuration of a recording.
pub open spec fn capture_config(
    api_key: Seq<char>,
    language: Option<Seq<char>>,
    target: Option<Seq<char>>,
) -> Map<Seq<char>, Json> {
    let timed = basic_config(api_key).insert("include_word_timing"@, Json::Bool(true));
    let hinted = match hinted_language(language) {
        Some(name) => timed.insert("language_hints"@, Json::Array(seq![Json::Text(name)])),
        None => timed,
    };
    match translated_language(target) {
        Some(name) => hinted.insert("translation"@, translation(name)),
        None => hinted,
    }
}

/// The members of the message that ends a recording.
pub open spec fn finalize_request() -> Map<Seq<char>, Json> {
    Map::empty().insert("type"@, Json::Text("finalize"@))
}

/// Adds a member with a text.
fn insert_text(map: &mut serde_json::Map<String, serde_json::Value>, key: &str, text: &str)
    ensures
        members_of(*final(map)) == members_of(*old(map)).insert(key@, Json::Text(text@)),
{
    insert_member(map, key.to_string(), text_value(text.to_string()));
}

/// The members that every configuration begins with.
fn basic_members(api_key: &str) -> (map: serde_json::Map<String, serde_json::Value>)
    ensures
        members_of(map) == basic_config(api_key@),
{
    let mut map = new_members();
    insert_text(&mut map, "api_key", api_key);
    insert_text(&mut map, "model", "stt-rt-v4");
    insert_text(&mut map, "audio_format", "pcm_s16le");
    insert_member(&mut map, "sample_rate".to_string(), number_value(TARGET_SAMPLE_RATE));
    insert_member(&mut map, "num_channels".to_string(), number_value(1));
    map
}

/// The message that begins a test of an API key.
pub fn key_test_message(api_key: &str) -> (message: String)
    ensures
        message@ == json_text(Json::Object(basic_config(api_key@))),
{
    let map = basic_members(api_key);
    write_json(&object_value(map))
}

/// Whether speech is translated, given the target language.
pub fn has_translation(target: Option<&str>) -> (translated: bool)
    ensures
        translated == (translated_language(chars_if_any(target)) is Some),
{
    match target {
        Some(name) => !name.is_empty() && *name != *"none",
        None => false,
    }
}

/// The message that begins a recording.
pub fn start_message(api_key: &str, language: Option<&str>, target: Option<&str>) -> (message:
    String)
    ensures
        message@ == json_text(
            Json::Object(
                capture_config(api_key@, chars_if_any(language), chars_if_any(target)),
            ),
        ),
{
    let mut map = basic_members(api_key);
    insert_member(&mut map, "include_word_timing".to_string(), bool_value(true));
    if let Some(name) = language {
        if !name.is_empty() && *name != *"auto" {
            let mut hints: Vec<serde_json::Value> = Vec::new();
            hints.push(text_value(name.to_string()));
            assert(json_list(hints@) == seq![Json::Text(name@)]);
            insert_member(&mut map, "language_hints".to_string(), array_value(hints));
        }
    }
    if has_translation(target) {
        if let Some(name) = target {
            let mut request = new_members();
            insert_text(&mut request, "type", "one_way");
            insert_text(&mut request, "target_language", name);
            insert_member(&mut map, "translation".to_string(), object_value(request));
        }
    }
    write_json(&object_value(map))
}

/// The message that ends a recording.
pub fn finalize_message() -> (message: String)
    ensures
        message@ == json_text(Json::Object(finalize_request())),
{
    let mut map = new_members();
    insert_text(&mut map, "type", "finalize");
    write_json(&object_value(map))
}

/// What happens while a session is opened.
#[derive(Debug, Clone, Copy, PartialEq, Eq, Structural)]
pub enum OpenEvent {
    Connected,
    ConnectFailed,
    StartSent,
    StartFailed,
}

/// What to do next to open a session.
#[derive(Debug)]
pub enum OpenAction {
    /// Send the message that begins the recording.
    Send(String),
    /// The session is open: send the recording.
    Run,
    /// There is no session, and why.
    Fail(String),
}

/// Decides what to do next to open a session.
pub fn open_step(
    api_key: &str,
    language: Option<&str>,
    target: Option<&str>,
    event: OpenEvent,
) -> (action: OpenAction)
    ensures
        match event {
            OpenEvent::Connected => action matches OpenAction::Send(message) && message@
                == json_text(
                Json::Object(
                    capture_config(api_key@, chars_if_any(language), chars_if_any(target)),
                ),
            ),
            OpenEvent::ConnectFailed => action matches OpenAction::Fail(error) && error@
                == "Failed to connect to Soniox. Check internet/key."@,
            OpenEvent::StartSent => action is Run,
            OpenEvent::StartFailed => action matches OpenAction::Fail(error) && error@
                == "Failed to send start config"@,
        },
{
    match event {
        OpenEvent::Connected => OpenAction::Send(start_message(api_key, language, target)),
        OpenEvent::ConnectFailed => OpenAction::Fail(
            "Failed to connect to Soniox. Check internet/key.".to_string(),
        ),
        OpenEvent::StartSent => OpenAction::Run,
        OpenEvent::StartFailed => OpenAction::Fail("Failed to send start config".to_string()),
    }
}

/// What happens while a recording is sent.
#[derive(Debug)]
pub enum SendEvent {
    /// The user stopped the recording.
    UserStopped,
    /// Nothing more is received from the service.
    ReceiverEnded,
    /// A piece of sound was recorded.
    Chunk(Vec<u8>),
    /// No more sound is recorded.
    ChunksEnded,
}

/// A message to the service.
#[derive(Debug)]
pub enum Outgoing {
    Text(String),
    Binary(Vec<u8>),
    Close,
}

/// What to do next: whether to stop recording sound, what to send, and
/// whether the session is over after that.
#[derive(Debug)]
pub struct SendStep {
    pub stop_capture: bool,
    pub send: Vec<Outgoing>,
    pub done: bool,
}

/// Decides what to do about an event while a recording is sent. Sound is sent
/// as it comes. A user who stops has the service finish the text and close.
pub fn send_step(event: SendEvent) -> (step: SendStep)
    ensures
        match event {
            SendEvent::UserStopped => {
                &&& step.stop_capture && step.done
                &&& step.send@.len() == 2
                &&& step.send@[0] matches Outgoing::Text(text) && text@ == json_text(
                    Json::Object(finalize_request()),
                )
                &&& step.send@[1] is Close
            },
            SendEvent::ReceiverEnded => step.stop_capture && step.done && step.send@.len() == 0,
            SendEvent::Chunk(bytes) => {
                &&& !step.stop_capture && !step.done
                &&& step.send@.len() == 1
                &&& step.send@[0] matches Outgoing::Binary(sent) && sent@ == bytes@
            },
            SendEvent::ChunksEnded => !step.stop_capture && step.done && step.send@.len() == 0,
        },
{
    let mut send: Vec<Outgoing> = Vec::new();
    match event {
        SendEvent::UserStopped => {
            send.push(Outgoing::Text(finalize_message()));
            send.push(Outgoing::Close);
            SendStep { stop_capture: true, send, done: true }
        },
        SendEvent::ReceiverEnded => SendStep { stop_capture: true, send, done: true },
        SendEvent::Chunk(bytes) => {
            send.push(Outgoing::Binary(bytes));
            SendStep { stop_capture: false, send, done: false }
        },
        SendEvent::ChunksEnded => SendStep { stop_capture: false, send, done: true },
    }
}

/// The step after a message that could not be sent: the last step of a session
/// goes on as it was; in any other the session is over, and recording stops.
pub open spec fn follows_failure(step: SendStep, next: SendStep) -> bool {
    if step.done {
        next == step
    } else {
        next.stop_capture && next.done && next.send@.len() == 0
    }
}

/// Decides what to do when a message could not be sent, where `step` holds what
/// is left of the step that it was part of.
pub fn send_failed(step: SendStep) -> (next: SendStep)
    ensures
        follows_failure(step, next),
{
    if step.done {
        step
    } else {
        SendStep { stop_capture: true, send: Vec::new(), done: true }
    }
}

/// A session is over after a message that could not be sent, whatever the step
/// was, and further failures change nothing.
pub proof fn law_failed_send_ends_session(step: SendStep, next: SendStep, last: SendStep)
    requires
        follows_failure(step, next),
        follows_failure(next, last),
    ensures
        next.done,
        last == next,
{
}

/// No member that a recording adds has the name of one that is there.
proof fn lemma_added_members_are_new()
    ensures
        forall|name: Seq<char>, api_key: Seq<char>| #[trigger]
            basic_config(api_key).contains_key(name) ==> name != "include_word_timing"@ && name
                != "language_hints"@ && name != "translation"@,
        "translation"@ != "include_word_timing"@,
        "translation"@ != "language_hints"@,
{
    reveal_strlit("api_key");
    reveal_strlit("model");
    reveal_strlit("audio_format");
    reveal_strlit("sample_rate");
    reveal_strlit("num_channels");
    reveal_strlit("include_word_timing");
    reveal_strlit("language_hints");
    reveal_strlit("translation");
    assert("api_key"@.len() == 7 && "model"@.len() == 5 && "audio_format"@.len() == 12);
    assert("sample_rate"@.len() == 11 && "num_channels"@.len() == 12);
    assert("include_word_timing"@.len() == 19 && "language_hints"@.len() == 14);
    assert("translation"@.len() == 11);
    assert("sample_rate"@[0] == 's' && "translation"@[0] == 't');
}

/// A recording is configured as a key test is, and more: what the test of a
/// key sends, a recording with that key sends too.
pub proof fn law_recording_extends_key_test(
    api_key: Seq<char>,
    language: Option<Seq<char>>,
    target: Option<Seq<char>>,
)
    ensures
        basic_config(api_key).submap_of(capture_config(api_key, language, target)),
{
    lemma_added_members_are_new();
}

/// Asking for `auto`, for the empty language or for none are the same.
pub proof fn law_auto_is_no_hint(api_key: Seq<char>, target: Option<Seq<char>>)
    ensures
        capture_config(api_key, Some("auto"@), target) == capture_config(api_key, None, target),
        capture_config(api_key, Some(Seq::empty()), target) == capture_config(
            api_key,
            None,
            target,
        ),
{
}

/// Translating to `none`, to the empty language or not at all are the same.
pub proof fn law_none_is_no_translation(api_key: Seq<char>, language: Option<Seq<char>>)
    ensures
        capture_config(api_key, language, Some("none"@)) == capture_config(api_key, language, None),
        capture_config(api_key, language, Some(Seq::empty())) == capture_config(
            api_key,
            language,
            None,
        ),
{
}

/// Translation is asked for exactly when a target language is given.
pub proof fn law_translation_is_asked_for(
    api_key: Seq<char>,
    language: Option<Seq<char>>,
    target: Option<Seq<char>>,
)
    ensures
        capture_config(api_key, language, target).contains_key("translation"@) <==> (
        translated_language(target) is Some),
{
    lemma_added_members_are_new();
}

} // verus!
