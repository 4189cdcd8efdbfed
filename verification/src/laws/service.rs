//! The messages that the speech service is sent.

use vstd::prelude::*;

use crate::json::{json_text, Json};
use crate::service::{
    basic_config, capture_config, finalize_message, finalize_request, has_translation,
    key_test_message, open_step, send_failed, send_step, start_message, translation, OpenAction,
    OpenEvent, SendEvent, SendStep, SONIOX_WS_URL, TARGET_SAMPLE_RATE,
};
use crate::text::{chars_if_any, decimal, digit, numeral};

verus! {

/// Where the service is, and how many samples it gets per second.
pub proof fn law_service()
    ensures
        SONIOX_WS_URL@ == "wss://stt-rt.soniox.com/transcribe-websocket"@,
        TARGET_SAMPLE_RATE == 16000,
{
}

/// A language to expect speech in: neither the empty text nor `auto`.
pub open spec fn is_hint(language: Option<&str>) -> bool {
    language matches Some(name) && name@.len() > 0 && name@ != "auto"@
}

/// A language to translate to: neither the empty text nor `none`.
pub open spec fn is_target(target: Option<&str>) -> bool {
    target matches Some(name) && name@.len() > 0 && name@ != "none"@
}

/// The names of the members that every configuration has.
pub open spec fn is_basic_member(name: Seq<char>) -> bool {
    ||| name == "api_key"@
    ||| name == "model"@
    ||| name == "audio_format"@
    ||| name == "sample_rate"@
    ||| name == "num_channels"@
}

/// The members that every configuration has: the key, and the model and the
/// kind of sound, 16000 samples of one channel per second.
pub open spec fn says_basics(members: Map<Seq<char>, Json>, api_key: Seq<char>) -> bool {
    &&& members["api_key"@] == Json::Text(api_key)
    &&& members["model"@] == Json::Text("stt-rt-v4"@)
    &&& members["audio_format"@] == Json::Text("pcm_s16le"@)
    &&& members["sample_rate"@] == Json::Number(seq!['1', '6', '0', '0', '0'])
    &&& members["num_channels"@] == Json::Number(seq!['1'])
}

/// The members ask for a translation to the language, in one direction.
pub open spec fn asks_translation(request: Map<Seq<char>, Json>, target: Seq<char>) -> bool {
    &&& forall|name: Seq<char>| #[trigger]
        request.contains_key(name) <==> name == "type"@ || name == "target_language"@
    &&& request["type"@] == Json::Text("one_way"@)
    &&& request["target_language"@] == Json::Text(target)
}

/// The members configure a recording: the basics, word timing, the language as
/// the one hint just if one is given, and the request to translate just if a
/// language for that is given. There are no others.
pub open spec fn configures_recording(
    members: Map<Seq<char>, Json>,
    request: Map<Seq<char>, Json>,
    api_key: &str,
    language: Option<&str>,
    target: Option<&str>,
) -> bool {
    &&& forall|name: Seq<char>| #[trigger]
        members.contains_key(name) <==> {
            ||| is_basic_member(name)
            ||| name == "include_word_timing"@
            ||| is_hint(language) && name == "language_hints"@
            ||| is_target(target) && name == "translation"@
        }
    &&& says_basics(members, api_key@)
    &&& members["include_word_timing"@] == Json::Bool(true)
    &&& is_hint(language) ==> members["language_hints"@] == Json::Array(
        seq![Json::Text(language->0@)],
    )
    &&& is_target(target) ==> members["translation"@] == Json::Object(request) && asks_translation(
        request,
        target->0@,
    )
}

proof fn lemma_member_names()
    ensures
        "api_key"@ != "model"@,
        "api_key"@ != "audio_format"@,
        "api_key"@ != "sample_rate"@,
        "api_key"@ != "num_channels"@,
        "model"@ != "audio_format"@,
        "model"@ != "sample_rate"@,
        "model"@ != "num_channels"@,
        "audio_format"@ != "sample_rate"@,
        "audio_format"@ != "num_channels"@,
        "sample_rate"@ != "num_channels"@,
        !is_basic_member("include_word_timing"@),
        !is_basic_member("language_hints"@),
        !is_basic_member("translation"@),
        "include_word_timing"@ != "language_hints"@,
        "include_word_timing"@ != "translation"@,
        "language_hints"@ != "translation"@,
        "type"@ != "target_language"@,
{
    reveal_strlit("api_key");
    reveal_strlit("model");
    reveal_strlit("audio_format");
    reveal_strlit("sample_rate");
    reveal_strlit("num_channels");
    reveal_strlit("include_word_timing");
    reveal_strlit("language_hints");
    reveal_strlit("translation");
    reveal_strlit("type");
    reveal_strlit("target_language");
    assert("api_key"@.len() == 7 && "model"@.len() == 5 && "audio_format"@.len() == 12);
    assert("sample_rate"@.len() == 11 && "num_channels"@.len() == 12);
    assert("include_word_timing"@.len() == 19 && "language_hints"@.len() == 14);
    assert("translation"@.len() == 11);
    assert("audio_format"@[0] == 'a' && "num_channels"@[0] == 'n');
    assert("sample_rate"@[0] == 's' && "translation"@[0] == 't');
    assert("type"@.len() == 4 && "target_language"@.len() == 15);
}

proof fn lemma_numerals()
    ensures
        decimal(16000) == seq!['1', '6', '0', '0', '0'],
        decimal(1) == seq!['1'],
{
    assert(numeral(1) == seq![digit(1)]);
    assert(numeral(16) == numeral(1).push(digit(6)));
    assert(numeral(160) == numeral(16).push(digit(0)));
    assert(numeral(1600) == numeral(160).push(digit(0)));
    assert(numeral(16000) == numeral(1600).push(digit(0)));
    assert(digit(1) == '1' && digit(6) == '6' && digit(0) == '0');
    assert(decimal(16000) == seq!['1', '6', '0', '0', '0']);
    assert(decimal(1) == seq!['1']);
}

proof fn lemma_basic_config(members: Map<Seq<char>, Json>, api_key: Seq<char>)
    requires
        says_basics(members, api_key),
    ensures
        forall|name: Seq<char>| #[trigger]
            basic_config(api_key).contains_key(name) <==> is_basic_member(name),
        forall|name: Seq<char>|
            is_basic_member(name) ==> #[trigger] basic_config(api_key)[name] == members[name],
{
    lemma_member_names();
    lemma_numerals();
}

proof fn lemma_capture_config(
    members: Map<Seq<char>, Json>,
    request: Map<Seq<char>, Json>,
    api_key: &str,
    language: Option<&str>,
    target: Option<&str>,
)
    requires
        configures_recording(members, request, api_key, language, target),
    ensures
        capture_config(
            api_key@,
            chars_if_any(language),
            chars_if_any(target),
        ) == members,
{
    lemma_member_names();
    lemma_basic_config(members, api_key@);
    let config = capture_config(
        api_key@,
        chars_if_any(language),
        chars_if_any(target),
    );
    if is_target(target) {
        assert(translation(target->0@) == Json::Object(request)) by {
            let asked = Map::<Seq<char>, Json>::empty().insert(
                "type"@,
                Json::Text("one_way"@),
            ).insert("target_language"@, Json::Text(target->0@));
            assert(asked =~= request);
        }
    }
    assert forall|name: Seq<char>| #[trigger] config.contains_key(name) <==> members.contains_key(
        name,
    ) by {
        assert(basic_config(api_key@).contains_key(name) <==> is_basic_member(name));
    }
    assert forall|name: Seq<char>| #[trigger] config.contains_key(name) implies config[name]
        == members[name] by {
        if is_basic_member(name) {
            assert(basic_config(api_key@)[name] == members[name]);
        }
    }
    assert(config =~= members);
}

/// A language that is neither empty nor `auto` is sent as the one hint, whatever
/// is translated; for any other there is no hint.
pub proof fn law_language_is_hinted(
    api_key: Seq<char>,
    language: Seq<char>,
    target: Option<Seq<char>>,
)
    ensures
        language.len() > 0 && language != "auto"@ ==> {
            let members = capture_config(api_key, Some(language), target);
            &&& members.contains_key("language_hints"@)
            &&& members["language_hints"@] == Json::Array(seq![Json::Text(language)])
        },
        language.len() == 0 || language == "auto"@ ==> !capture_config(
            api_key,
            Some(language),
            target,
        ).contains_key("language_hints"@),
        !capture_config(api_key, None, target).contains_key("language_hints"@),
{
    lemma_member_names();
}

/// The message that begins a recording is the JSON text of the members that
/// configure it.
pub proof fn law_start_message(
    api_key: &str,
    language: Option<&str>,
    target: Option<&str>,
    members: Map<Seq<char>, Json>,
    request: Map<Seq<char>, Json>,
    message: String,
)
    requires
        call_ensures(start_message, (api_key, language, target), message),
        configures_recording(members, request, api_key, language, target),
    ensures
        message@ == json_text(Json::Object(members)),
{
    lemma_capture_config(members, request, api_key, language, target);
}

/// The message that begins the test of a key is the JSON text of the basic
/// members alone.
pub proof fn law_key_test_message(
    api_key: &str,
    members: Map<Seq<char>, Json>,
    message: String,
)
    requires
        call_ensures(key_test_message, (api_key,), message),
        forall|name: Seq<char>| #[trigger] members.contains_key(name) <==> is_basic_member(name),
        says_basics(members, api_key@),
    ensures
        message@ == json_text(Json::Object(members)),
{
    lemma_basic_config(members, api_key@);
    assert(basic_config(api_key@) =~= members);
}

/// The message that ends a recording is the JSON text of one member, which says
/// so.
pub proof fn law_finalize_message(members: Map<Seq<char>, Json>, message: String)
    requires
        call_ensures(finalize_message, (), message),
        forall|name: Seq<char>| #[trigger] members.contains_key(name) <==> name == "type"@,
        members["type"@] == Json::Text("finalize"@),
    ensures
        message@ == json_text(Json::Object(members)),
{
    assert(finalize_request() =~= members);
}

/// Speech is translated just if a language for that is given.
pub proof fn law_has_translation(target: Option<&str>, translated: bool)
    requires
        call_ensures(has_translation, (target,), translated),
    ensures
        translated <==> is_target(target),
{
}

/// A connection is followed by the message that begins the recording.
pub proof fn law_open_connected(
    api_key: &str,
    language: Option<&str>,
    target: Option<&str>,
    message: String,
    action: OpenAction,
)
    requires
        call_ensures(start_message, (api_key, language, target), message),
        call_ensures(open_step, (api_key, language, target, OpenEvent::Connected), action),
    ensures
        action matches OpenAction::Send(sent) && sent@ == message@,
{
}

/// Once that message is sent the session runs; where a connection or that
/// message fails there is none, and the reason is given.
pub proof fn law_open_outcome(
    api_key: &str,
    language: Option<&str>,
    target: Option<&str>,
    event: OpenEvent,
    action: OpenAction,
)
    requires
        call_ensures(open_step, (api_key, language, target, event), action),
    ensures
        action is Run <==> event == OpenEvent::StartSent,
        action is Send <==> event == OpenEvent::Connected,
        event == OpenEvent::ConnectFailed ==> action is Fail && action->Fail_0@
            == "Failed to connect to Soniox. Check internet/key."@,
        event == OpenEvent::StartFailed ==> action is Fail && action->Fail_0@
            == "Failed to send start config"@,
{
}

/// Sound is sent as it is, one message for each piece, and the session goes on.
pub proof fn law_send_chunk(bytes: Vec<u8>, step: SendStep)
    requires
        call_ensures(send_step, (SendEvent::Chunk(bytes),), step),
    ensures
        step.send@.len() == 1,
        step.send@[0] is Binary,
        step.send@[0]->Binary_0@ == bytes@,
        !step.stop_capture,
        !step.done,
{
}

/// A user who stops ends the session: recording stops, and the service is sent
/// the message that ends it and then the end of the connection.
pub proof fn law_send_stop(message: String, step: SendStep)
    requires
        call_ensures(finalize_message, (), message),
        call_ensures(send_step, (SendEvent::UserStopped,), step),
    ensures
        step.send@.len() == 2,
        step.send@[0] is Text,
        step.send@[0]->Text_0@ == message@,
        step.send@[1] is Close,
        step.stop_capture,
        step.done,
{
}

/// The session ends without a message when nothing more is received, which
/// stops recording too, and when no more sound comes.
pub proof fn law_send_end(event: SendEvent, step: SendStep)
    requires
        call_ensures(send_step, (event,), step),
        event is ReceiverEnded || event is ChunksEnded,
    ensures
        step.send@.len() == 0,
        step.stop_capture <==> event is ReceiverEnded,
        step.done,
{
}

/// A message that could not be sent ends the session and stops recording, unless
/// the session was to end anyway: then the rest goes on as it was to.
pub proof fn law_send_failed(step: SendStep, next: SendStep)
    requires
        call_ensures(send_failed, (step,), next),
    ensures
        next.done,
        step.done ==> next.stop_capture == step.stop_capture && next.send@ == step.send@,
        !step.done ==> next.stop_capture && next.send@.len() == 0,
{
}

} // verus!
