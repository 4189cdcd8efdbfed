//! What the application does when it is asked to.

use vstd::prelude::*;

use crate::json::{json_of, Json};
use crate::shortcut::{parse_shortcut, Shortcut};
use crate::state::{
    outcome_notice, startup_shortcut, AppState, Notice, RecordingSettings, ShortcutChange, Started,
    Stopped, Toggle,
};

verus! {

/// The value that was found is a text, and this one.
pub open spec fn is_text(found: Option<serde_json::Value>, text: Seq<char>) -> bool {
    found is Some && json_of(found->0) == Json::Text(text)
}

/// The value that was found is a text that makes a choice: it is neither empty
/// nor the one that stands for no choice.
pub open spec fn is_choice(found: Option<serde_json::Value>, no_choice: Seq<char>) -> bool {
    &&& found is Some
    &&& json_of(found->0) is Text
    &&& json_of(found->0)->Text_0.len() > 0
    &&& json_of(found->0)->Text_0 != no_choice
}

/// In the beginning nothing is going on.
pub proof fn law_new_state<StopTx, StopFlag>(state: AppState<StopTx, StopFlag>)
    requires
        call_ensures(AppState::<StopTx, StopFlag>::new, (), state),
    ensures
        !state.recording,
        state.stop_tx is None,
        state.mic_preview_stop is None,
        state.current_shortcut is None,
{
}

/// The application is idle just if it is not recording.
pub proof fn law_check_idle<StopTx, StopFlag>(
    state: &AppState<StopTx, StopFlag>,
    checked: Result<(), String>,
)
    requires
        call_ensures(AppState::<StopTx, StopFlag>::check_idle, (state,), checked),
    ensures
        checked is Ok <==> !state.recording,
        checked is Err ==> checked->Err_0@ == "Already recording"@,
{
}

/// A recording is refused while one is going on, when the settings cannot be
/// read, and without an API key; nothing changes then, and the reason is given.
pub proof fn law_start_is_refused<StopTx, StopFlag>(
    state: &mut AppState<StopTx, StopFlag>,
    stop_tx: StopTx,
    stored: Result<RecordingSettings, String>,
    started: Result<Started, String>,
)
    requires
        call_ensures(
            AppState::<StopTx, StopFlag>::start_recording,
            (state, stop_tx, stored),
            started,
        ),
    ensures
        started is Err <==> {
            ||| old(state).recording
            ||| stored is Err
            ||| is_text(stored->Ok_0.api_key, Seq::empty())
            ||| stored->Ok_0.api_key is None
            ||| !(json_of(stored->Ok_0.api_key->0) is Text)
        },
        started is Err ==> {
            &&& final(state).recording == old(state).recording
            &&& final(state).stop_tx == old(state).stop_tx
            &&& final(state).mic_preview_stop == old(state).mic_preview_stop
            &&& final(state).current_shortcut == old(state).current_shortcut
        },
        old(state).recording ==> started->Err_0@ == "Already recording"@,
        !old(state).recording && stored is Err ==> started->Err_0@ == stored->Err_0@,
        !old(state).recording && stored is Ok && started is Err ==> started->Err_0@
            == "API key not configured. Open Settings to add it."@,
{
    if stored is Ok && stored->Ok_0.api_key is Some && json_of(
        stored->Ok_0.api_key->0,
    ) is Text {
        let key = json_of(stored->Ok_0.api_key->0)->Text_0;
        if key.len() == 0 {
            assert(key =~= Seq::<char>::empty());
        }
    }
}

/// A recording that begins is noted, with what it can be stopped with. It uses
/// the API key, the device and the language that are set, where one is.
pub proof fn law_start_uses_settings<StopTx, StopFlag>(
    state: &mut AppState<StopTx, StopFlag>,
    stop_tx: StopTx,
    settings: RecordingSettings,
    begun: Started,
)
    requires
        call_ensures(
            AppState::<StopTx, StopFlag>::start_recording,
            (state, stop_tx, Ok(settings)),
            Ok(begun),
        ),
    ensures
        final(state).recording,
        final(state).stop_tx == Some(stop_tx),
        final(state).mic_preview_stop == old(state).mic_preview_stop,
        final(state).current_shortcut == old(state).current_shortcut,
        is_text(settings.api_key, begun.api_key@),
        begun.api_key@.len() > 0,
        begun.device_name is Some <==> is_choice(settings.device_name, "Default"@),
        begun.device_name is Some ==> is_text(settings.device_name, begun.device_name->0@),
        begun.language is Some <==> is_choice(settings.language, "auto"@),
        begun.language is Some ==> is_text(settings.language, begun.language->0@),
        begun.notice == Notice::RecordingState(true),
{
}

/// Stopping hands out what the recording is told with, and nothing a second
/// time. The recording is still noted.
pub proof fn law_stop_recording<StopTx, StopFlag>(
    state: &mut AppState<StopTx, StopFlag>,
    stopped: Stopped<StopTx>,
)
    requires
        call_ensures(AppState::<StopTx, StopFlag>::stop_recording, (state,), stopped),
    ensures
        stopped.signal == old(state).stop_tx,
        stopped.notice == Notice::RecordingState(false),
        final(state).stop_tx is None,
        final(state).recording == old(state).recording,
        final(state).mic_preview_stop == old(state).mic_preview_stop,
        final(state).current_shortcut == old(state).current_shortcut,
{
}

/// Toggling stops a recording that is going on, and begins one otherwise.
pub proof fn law_toggle_recording<StopTx, StopFlag>(
    state: &AppState<StopTx, StopFlag>,
    toggle: Toggle,
)
    requires
        call_ensures(AppState::<StopTx, StopFlag>::toggle_recording, (state,), toggle),
    ensures
        toggle == Toggle::Stop <==> state.recording,
        toggle == Toggle::Start <==> !state.recording,
{
}

/// The end of a recording is noted and announced, and changes nothing else.
pub proof fn law_capture_ended<StopTx, StopFlag>(
    state: &mut AppState<StopTx, StopFlag>,
    notice: Notice,
)
    requires
        call_ensures(AppState::<StopTx, StopFlag>::capture_ended, (state,), notice),
    ensures
        !final(state).recording,
        notice == Notice::RecordingState(false),
        final(state).stop_tx == old(state).stop_tx,
        final(state).mic_preview_stop == old(state).mic_preview_stop,
        final(state).current_shortcut == old(state).current_shortcut,
{
}

/// A failure is announced as it is, and nothing but a failure.
pub proof fn law_outcome_notice(outcome: Result<(), String>, notice: Option<Notice>)
    requires
        call_ensures(outcome_notice, (outcome,), notice),
    ensures
        notice is Some <==> outcome is Err,
        outcome is Err ==> notice->0 is TranscriptError && notice->0->TranscriptError_0
            == outcome->Err_0,
{
}

/// A preview takes the place of the one before, which is handed out.
pub proof fn law_start_mic_preview<StopTx, StopFlag>(
    state: &mut AppState<StopTx, StopFlag>,
    stop_flag: StopFlag,
    replaced: Option<StopFlag>,
)
    requires
        call_ensures(
            AppState::<StopTx, StopFlag>::start_mic_preview,
            (state, stop_flag),
            replaced,
        ),
    ensures
        replaced == old(state).mic_preview_stop,
        final(state).mic_preview_stop == Some(stop_flag),
        final(state).recording == old(state).recording,
        final(state).stop_tx == old(state).stop_tx,
        final(state).current_shortcut == old(state).current_shortcut,
{
}

/// The end of a preview hands out what it is told with, and leaves none.
pub proof fn law_stop_mic_preview<StopTx, StopFlag>(
    state: &mut AppState<StopTx, StopFlag>,
    stopped: Option<StopFlag>,
)
    requires
        call_ensures(AppState::<StopTx, StopFlag>::stop_mic_preview, (state,), stopped),
    ensures
        stopped == old(state).mic_preview_stop,
        final(state).mic_preview_stop is None,
        final(state).recording == old(state).recording,
        final(state).stop_tx == old(state).stop_tx,
        final(state).current_shortcut == old(state).current_shortcut,
{
}

/// The shortcut that a text names is to be listened for in place of the present
/// one, which is given up; a text that names none is refused and changes
/// nothing.
pub proof fn law_register_app_shortcut<StopTx, StopFlag>(
    state: &mut AppState<StopTx, StopFlag>,
    accel: &str,
    named: Option<Shortcut>,
    change: Result<ShortcutChange, String>,
)
    requires
        call_ensures(parse_shortcut, (accel,), named),
        call_ensures(AppState::<StopTx, StopFlag>::register_app_shortcut, (state, accel), change),
    ensures
        change is Ok <==> named is Some,
        change is Ok ==> {
            &&& change->Ok_0.register == named->0
            &&& change->Ok_0.unregister == old(state).current_shortcut
            &&& final(state).current_shortcut is None
        },
        change is Err ==> {
            &&& change->Err_0@ == "Invalid shortcut: "@ + accel@
            &&& final(state).current_shortcut == old(state).current_shortcut
        },
        final(state).recording == old(state).recording,
        final(state).stop_tx == old(state).stop_tx,
        final(state).mic_preview_stop == old(state).mic_preview_stop,
{
}

/// A shortcut is listened for just if asking for it went well; a failure is
/// passed on.
pub proof fn law_shortcut_registered<StopTx, StopFlag>(
    state: &mut AppState<StopTx, StopFlag>,
    shortcut: Shortcut,
    outcome: Result<(), String>,
    result: Result<(), String>,
)
    requires
        call_ensures(
            AppState::<StopTx, StopFlag>::shortcut_registered,
            (state, shortcut, outcome),
            result,
        ),
    ensures
        result is Ok <==> outcome is Ok,
        outcome is Err ==> result->Err_0 == outcome->Err_0,
        outcome is Ok ==> final(state).current_shortcut == Some(shortcut),
        outcome is Err ==> final(state).current_shortcut == old(state).current_shortcut,
        final(state).recording == old(state).recording,
        final(state).stop_tx == old(state).stop_tx,
        final(state).mic_preview_stop == old(state).mic_preview_stop,
{
}

/// From the start the shortcut that is set is listened for, or the default one
/// if no text is set.
pub proof fn law_startup_shortcut(found: &Option<serde_json::Value>, accel: String)
    requires
        call_ensures(startup_shortcut, (found,), accel),
    ensures
        found is Some && json_of(found->0) is Text ==> is_text(*found, accel@),
        found is None || !(json_of(found->0) is Text) ==> accel@ == "CommandOrControl+Shift+S"@,
{
}

} // verus!
