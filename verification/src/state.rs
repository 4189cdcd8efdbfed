//! What the application is doing: recording or not, previewing the microphone
//! or not, and listening for which shortcut.

use vstd::prelude::*;

use crate::devices::chooses_default;
use crate::json::Json;
use crate::service::capture_config;
use crate::settings::{
    after, api_key_changes, chars_held, data_of, get_str, law_api_key_is_kept, read_from, text_held,
    API_KEY,
};
use crate::shortcut::{
    ascii_parts_of, combined, parse_shortcut, parts_by_name, parts_of, Shortcut, DEFAULT_SHORTCUT,
};
use crate::text::is_ascii_text;

verus! {

/// The state of the application. `StopTx` is what a recording is told to stop
/// with, `StopFlag` what a preview is.
pub struct AppState<StopTx, StopFlag> {
    pub recording: bool,
    pub stop_tx: Option<StopTx>,
    pub mic_preview_stop: Option<StopFlag>,
    pub current_shortcut: Option<Shortcut>,
}

/// News for the user interface.
#[derive(Debug)]
pub enum Notice {
    /// Whether the application is recording.
    RecordingState(bool),
    /// A recording failed, and why.
    TranscriptError(String),
}

/// The values that were found under the names of the settings that a recording
/// depends on.
#[derive(Debug)]
pub struct RecordingSettings {
    pub api_key: Option<serde_json::Value>,
    pub device_name: Option<serde_json::Value>,
    pub language: Option<serde_json::Value>,
}

/// A recording that is to begin.
#[derive(Debug)]
pub struct Started {
    pub api_key: String,
    pub device_name: Option<String>,
    pub language: Option<String>,
    pub notice: Notice,
}

/// The end of a recording that is asked for: whom to tell, and what to say.
#[derive(Debug)]
pub struct Stopped<StopTx> {
    pub signal: Option<StopTx>,
    pub notice: Notice,
}

/// What a request to toggle recording comes to.
#[derive(Debug, Clone, Copy, PartialEq, Eq, Structural)]
pub enum Toggle {
    Start,
    Stop,
}

/// A change of shortcuts: which one to give up, and which one to listen for.
#[derive(Debug, Clone, Copy, PartialEq, Eq, Structural)]
pub struct ShortcutChange {
    pub unregister: Option<Shortcut>,
    pub register: Shortcut,
}

/// A setting that says something: not the empty text, and not the one that
/// stands for no choice.
pub open spec fn chosen(text: Option<Seq<char>>, no_choice: Seq<char>) -> Option<Seq<char>> {
    match text {
        Some(held) => if held.len() > 0 && held != no_choice {
            Some(held)
        } else {
            None
        },
        None => None,
    }
}

/// The text of a setting that says something.
fn choice(found: &Option<serde_json::Value>, no_choice: &str) -> (text: Option<String>)
    ensures
        chars_held(text) == chosen(text_held(data_of(*found)), no_choice@),
{
    match get_str(found) {
        Some(text) => if !text.as_str().is_empty() && *text.as_str() != *no_choice {
            Some(text)
        } else {
            None
        },
        None => None,
    }
}

impl<StopTx, StopFlag> AppState<StopTx, StopFlag> {
    /// A recording began: it can be stopped with `stop_tx`. Nothing else
    /// changed.
    pub open spec fn began(self, before: Self, stop_tx: StopTx) -> bool {
        self == (AppState { recording: true, stop_tx: Some(stop_tx), ..before })
    }

    /// The recording ended. Nothing else changed.
    pub open spec fn ended(self, before: Self) -> bool {
        self == (AppState { recording: false, ..before })
    }

    /// The recording was told to stop, and cannot be told again. Nothing else
    /// changed: it is still going on.
    pub open spec fn told_to_stop(self, before: Self) -> bool {
        self == (AppState { stop_tx: None, ..before })
    }

    /// The state that the application begins in: nothing is going on.
    pub fn new() -> (state: Self)
        ensures
            !state.recording,
            state.stop_tx is None,
            state.mic_preview_stop is None,
            state.current_shortcut is None,
    {
        AppState { recording: false, stop_tx: None, mic_preview_stop: None, current_shortcut: None }
    }

    /// Checks that no recording is going on.
    pub fn check_idle(&self) -> (checked: Result<(), String>)
        ensures
            match checked {
                Ok(()) => !self.recording,
                Err(error) => self.recording && error@ == "Already recording"@,
            },
    {
        if self.recording {
            Err("Already recording".to_string())
        } else {
            Ok(())
        }
    }

    /// Begins a recording, unless one is going on, the settings could not be
    /// read, or there is no API key among them. `stored` are the settings, or
    /// why they could not be read.
    pub fn start_recording(
        &mut self,
        stop_tx: StopTx,
        stored: Result<RecordingSettings, String>,
    ) -> (started: Result<Started, String>)
        ensures
            started is Err ==> *final(self) == *old(self),
            started is Ok ==> final(self).began(*old(self), stop_tx),
            if old(self).recording {
                started matches Err(error) && error@ == "Already recording"@
            } else {
                match stored {
                    Err(failure) => started matches Err(error) && error@ == failure@,
                    Ok(settings) => match chosen(
                        text_held(data_of(settings.api_key)),
                        Seq::empty(),
                    ) {
                        Some(api_key) => {
                            &&& started matches Ok(begun)
                            &&& begun.api_key@ == api_key
                            &&& chars_held(begun.device_name) == chosen(
                                text_held(data_of(settings.device_name)),
                                "Default"@,
                            )
                            &&& chars_held(begun.language) == chosen(
                                text_held(data_of(settings.language)),
                                "auto"@,
                            )
                            &&& begun.notice == Notice::RecordingState(true)
                        },
                        None => started matches Err(error) && error@
                            == "API key not configured. Open Settings to add it."@,
                    },
                }
            },
    {
        if self.recording {
            return Err("Already recording".to_string());
        }
        let settings = match stored {
            Ok(settings) => settings,
            Err(failure) => return Err(failure),
        };
        proof {
            reveal_strlit("");
            assert(""@ == Seq::<char>::empty());
        }
        let api_key = match choice(&settings.api_key, "") {
            Some(api_key) => api_key,
            None => {
                return Err("API key not configured. Open Settings to add it.".to_string());
            },
        };
        let device_name = choice(&settings.device_name, "Default");
        let language = choice(&settings.language, "auto");
        self.stop_tx = Some(stop_tx);
        self.recording = true;
        Ok(Started { api_key, device_name, language, notice: Notice::RecordingState(true) })
    }

    /// Asks the recording to stop, if it was not asked yet. It goes on until
    /// `capture_ended`.
    pub fn stop_recording(&mut self) -> (stopped: Stopped<StopTx>)
        ensures
            final(self).told_to_stop(*old(self)),
            stopped.signal == old(self).stop_tx,
            stopped.notice == Notice::RecordingState(false),
    {
        let signal = self.stop_tx.take();
        Stopped { signal, notice: Notice::RecordingState(false) }
    }

    /// What a request to toggle recording comes to.
    pub fn toggle_recording(&self) -> (toggle: Toggle)
        ensures
            toggle == (if self.recording {
                Toggle::Stop
            } else {
                Toggle::Start
            }),
    {
        if self.recording {
            Toggle::Stop
        } else {
            Toggle::Start
        }
    }

    /// Takes note that the recording ended.
    pub fn capture_ended(&mut self) -> (notice: Notice)
        ensures
            final(self).ended(*old(self)),
            notice == Notice::RecordingState(false),
    {
        self.recording = false;
        Notice::RecordingState(false)
    }

    /// Begins a preview of the microphone, in place of the one that is going
    /// on, if any: that one is to be told to stop.
    pub fn start_mic_preview(&mut self, stop_flag: StopFlag) -> (replaced: Option<StopFlag>)
        ensures
            replaced == old(self).mic_preview_stop,
            *final(self) == (AppState { mic_preview_stop: Some(stop_flag), ..*old(self) }),
    {
        let replaced = self.mic_preview_stop.take();
        self.mic_preview_stop = Some(stop_flag);
        replaced
    }

    /// Ends the preview of the microphone, if there is one: it is to be told to
    /// stop.
    pub fn stop_mic_preview(&mut self) -> (stopped: Option<StopFlag>)
        ensures
            stopped == old(self).mic_preview_stop,
            *final(self) == (AppState { mic_preview_stop: None, ..*old(self) }),
    {
        self.mic_preview_stop.take()
    }

    /// Gives up the shortcut that is listened for, to listen for the one that
    /// a text names. A text that names none changes nothing.
    pub fn register_app_shortcut(&mut self, accel: &str) -> (change: Result<ShortcutChange, String>)
        ensures
            match combined(parts_of(accel@)) {
                Some(shortcut) => {
                    &&& change == Ok::<ShortcutChange, String>(
                        ShortcutChange {
                            unregister: old(self).current_shortcut,
                            register: shortcut,
                        },
                    )
                    &&& *final(self) == (AppState { current_shortcut: None, ..*old(self) })
                },
                None => {
                    &&& change matches Err(error) && error@ == "Invalid shortcut: "@ + accel@
                    &&& *final(self) == *old(self)
                },
            },
            combined(parts_of(accel@)) == combined(parts_by_name(accel@)),
            is_ascii_text(accel@) ==> combined(parts_of(accel@)) == combined(
                ascii_parts_of(accel@),
            ),
    {
        match parse_shortcut(accel) {
            Some(shortcut) => {
                let unregister = self.current_shortcut.take();
                Ok(ShortcutChange { unregister, register: shortcut })
            },
            None => {
                let mut error = "Invalid shortcut: ".to_string();
                error.append(accel);
                Err(error)
            },
        }
    }

    /// Takes note of whether a shortcut is listened for now, given how asking
    /// for it turned out.
    pub fn shortcut_registered(
        &mut self,
        shortcut: Shortcut,
        outcome: Result<(), String>,
    ) -> (result: Result<(), String>)
        ensures
            result == outcome,
            *final(self) == (if outcome is Ok {
                AppState { current_shortcut: Some(shortcut), ..*old(self) }
            } else {
                *old(self)
            }),
    {
        if outcome.is_ok() {
            self.current_shortcut = Some(shortcut);
        }
        outcome
    }
}

/// What to say of how a recording turned out, before its end is noted: nothing
/// unless it failed.
pub fn outcome_notice(outcome: Result<(), String>) -> (notice: Option<Notice>)
    ensures
        notice == match outcome {
            Ok(()) => None,
            Err(failure) => Some(Notice::TranscriptError(failure)),
        },
{
    match outcome {
        Ok(()) => None,
        Err(failure) => Some(Notice::TranscriptError(failure)),
    }
}

/// The text of the shortcut to listen for from the start: the one that was
/// found among the settings, or the default one if no text was.
pub fn startup_shortcut(found: &Option<serde_json::Value>) -> (accel: String)
    ensures
        accel@ == match text_held(data_of(*found)) {
            Some(text) => text,
            None => DEFAULT_SHORTCUT@,
        },
{
    match get_str(found) {
        Some(text) => text,
        None => DEFAULT_SHORTCUT.to_string(),
    }
}

/// One step of the application, as far as recordings go: one begins, which
/// happens only when none is noted; one that is running ends; or neither, and
/// whether one is noted stays the same.
pub open spec fn recording_step<StopTx, StopFlag>(
    before: AppState<StopTx, StopFlag>,
    running: int,
    after: AppState<StopTx, StopFlag>,
    running_after: int,
) -> bool {
    ||| {
        &&& !before.recording
        &&& exists|stop_tx: StopTx| after.began(before, stop_tx)
        &&& running_after == running + 1
    }
    ||| {
        &&& running > 0
        &&& after.ended(before)
        &&& running_after == running - 1
    }
    ||| {
        &&& after.recording == before.recording
        &&& running_after == running
    }
}

/// There is never more than one recording, and one is noted exactly while it
/// is running: whatever steps lead from a state to another, beginning with
/// none.
pub proof fn law_one_recording_at_a_time<StopTx, StopFlag>(
    states: Seq<AppState<StopTx, StopFlag>>,
    running: Seq<int>,
    at: int,
)
    requires
        states.len() == running.len(),
        0 <= at < states.len(),
        !states[0].recording,
        running[0] == 0,
        forall|i: int|
            #![trigger states[i]]
            0 < i < states.len() ==> recording_step(
                states[i - 1],
                running[i - 1],
                states[i],
                running[i],
            ),
    ensures
        running[at] == (if states[at].recording {
            1int
        } else {
            0int
        }),
    decreases at,
{
    if at > 0 {
        law_one_recording_at_a_time(states, running, at - 1);
        assert(recording_step(states[at - 1], running[at - 1], states[at], running[at]));
    }
}

/// A recording is told to stop at most once: until another begins there is
/// nothing left to tell it with.
pub proof fn law_stop_is_told_once<StopTx, StopFlag>(
    before: AppState<StopTx, StopFlag>,
    told: AppState<StopTx, StopFlag>,
    again: AppState<StopTx, StopFlag>,
)
    requires
        told.told_to_stop(before),
        again.told_to_stop(told),
    ensures
        told.stop_tx is None,
        again == told,
{
}

/// A recording that began can be stopped: what it was begun with is what it is
/// told to stop with.
pub proof fn law_recording_can_be_stopped<StopTx, StopFlag>(
    before: AppState<StopTx, StopFlag>,
    begun: AppState<StopTx, StopFlag>,
    stop_tx: StopTx,
)
    requires
        begun.began(before, stop_tx),
    ensures
        begun.recording,
        begun.stop_tx == Some(stop_tx),
{
}

/// A setting that stands for no choice can be passed on or left out: either
/// way the same device is recorded from, and the service is told the same.
pub proof fn law_no_choice_can_be_left_out(
    device_name: Option<Seq<char>>,
    api_key: Seq<char>,
    language: Option<Seq<char>>,
    target: Option<Seq<char>>,
)
    ensures
        chooses_default(chosen(device_name, "Default"@)) <==> chooses_default(device_name),
        !chooses_default(device_name) ==> chosen(device_name, "Default"@) == device_name,
        capture_config(api_key, chosen(language, "auto"@), target) == capture_config(
            api_key,
            language,
            target,
        ),
{
}

/// The API key that was set is the one that a recording uses, unless it is
/// empty: then there is none.
pub proof fn law_key_that_was_set_is_used(
    store: Map<Seq<char>, Json>,
    key: Seq<char>,
    found: Option<serde_json::Value>,
)
    requires
        read_from(found, after(store, api_key_changes(key)), API_KEY@),
    ensures
        chosen(text_held(data_of(found)), Seq::empty()) == (if key.len() > 0 {
            Some(key)
        } else {
            None
        }),
{
    law_api_key_is_kept(store, key);
}

} // verus!
