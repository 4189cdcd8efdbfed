use live_transcriber::devices::picks_default;
use live_transcriber::service::start_message;
use live_transcriber::settings::{set_api_key, StoreOp};
use live_transcriber::shortcut::{Code, Modifiers, Shortcut, DEFAULT_SHORTCUT};
use live_transcriber::state::{
    outcome_notice, startup_shortcut, AppState, Notice, RecordingSettings, Toggle,
};
use serde_json::Value;

fn text(value: &str) -> Option<Value> {
    Some(Value::from(value))
}

fn settings(
    api_key: Option<Value>,
    device_name: Option<Value>,
    language: Option<Value>,
) -> Result<RecordingSettings, String> {
    Ok(RecordingSettings { api_key, device_name, language })
}

fn idle() -> AppState<u32, u32> {
    AppState::new()
}

#[test]
fn a_recording_begins_stops_and_ends() {
    let mut state = idle();
    assert_eq!(state.toggle_recording(), Toggle::Start);
    assert_eq!(state.check_idle(), Ok(()));
    let started = state
        .start_recording(7, settings(text("key"), text("mic"), text("de")))
        .expect("started");
    assert_eq!(started.api_key, "key");
    assert_eq!(started.device_name, Some("mic".to_string()));
    assert_eq!(started.language, Some("de".to_string()));
    assert!(matches!(started.notice, Notice::RecordingState(true)));
    assert!(state.recording);
    assert_eq!(state.toggle_recording(), Toggle::Stop);

    let stopped = state.stop_recording();
    assert_eq!(stopped.signal, Some(7));
    assert!(matches!(stopped.notice, Notice::RecordingState(false)));
    assert!(state.recording);
    assert_eq!(state.stop_recording().signal, None);

    assert!(outcome_notice(Ok(())).is_none());
    assert!(matches!(state.capture_ended(), Notice::RecordingState(false)));
    assert!(!state.recording);
    assert!(state.start_recording(8, settings(text("key"), None, None)).is_ok());
}

#[test]
fn only_one_recording_at_a_time() {
    let mut state = idle();
    assert!(state.start_recording(1, settings(text("key"), None, None)).is_ok());
    assert_eq!(state.check_idle(), Err("Already recording".to_string()));
    assert_eq!(
        state.start_recording(2, settings(text("key"), None, None)).err(),
        Some("Already recording".to_string())
    );
    assert_eq!(
        state.start_recording(2, Err("store".to_string())).err(),
        Some("Already recording".to_string())
    );
    assert_eq!(state.stop_tx, Some(1));
}

#[test]
fn a_recording_needs_its_settings() {
    let mut state = idle();
    assert_eq!(
        state.start_recording(1, Err("no store".to_string())).err(),
        Some("no store".to_string())
    );
    for key in [None, text(""), Some(Value::from(3))] {
        assert_eq!(
            state.start_recording(1, settings(key, None, None)).err(),
            Some("API key not configured. Open Settings to add it.".to_string())
        );
    }
    assert!(!state.recording);
    assert_eq!(state.stop_tx, None);
}

#[test]
fn placeholders_are_no_choice() {
    for (device, language) in [
        (text("Default"), text("auto")),
        (text(""), text("")),
        (None, None),
        (Some(Value::from(true)), Some(Value::from(1))),
    ] {
        let mut state = idle();
        let started = state
            .start_recording(1, settings(text("key"), device, language))
            .expect("started");
        assert_eq!(started.device_name, None);
        assert_eq!(started.language, None);
    }
}

#[test]
fn failures_are_reported() {
    let mut state = idle();
    assert!(state.start_recording(1, settings(text("key"), None, None)).is_ok());
    let failure = outcome_notice(Err("lost".to_string()));
    assert!(matches!(&failure, Some(Notice::TranscriptError(error)) if error == "lost"));
    assert!(state.recording);
    assert!(matches!(state.capture_ended(), Notice::RecordingState(false)));
    assert!(!state.recording);
}

#[test]
fn one_preview_replaces_another() {
    let mut state = idle();
    assert_eq!(state.start_mic_preview(1), None);
    assert_eq!(state.start_mic_preview(2), Some(1));
    assert_eq!(state.stop_mic_preview(), Some(2));
    assert_eq!(state.stop_mic_preview(), None);
}

#[test]
fn shortcuts_are_replaced() {
    let mut state = idle();
    let change = state.register_app_shortcut("Ctrl+A").expect("a shortcut");
    assert_eq!(change.unregister, None);
    assert_eq!(state.shortcut_registered(change.register, Ok(())), Ok(()));
    let first = Shortcut {
        mods: Modifiers { control: true, alt: false, shift: false, super_key: false },
        key: Code::KeyA,
    };
    assert_eq!(state.current_shortcut, Some(first));

    assert_eq!(
        state.register_app_shortcut("Ctrl+Nope"),
        Err("Invalid shortcut: Ctrl+Nope".to_string())
    );
    assert_eq!(state.current_shortcut, Some(first));

    let change = state.register_app_shortcut("f2").expect("a shortcut");
    assert_eq!(change.unregister, Some(first));
    assert_eq!(change.register.key, Code::F2);
    assert_eq!(state.current_shortcut, None);
    assert_eq!(
        state.shortcut_registered(change.register, Err("taken".to_string())),
        Err("taken".to_string())
    );
    assert_eq!(state.current_shortcut, None);
}

#[test]
fn the_stored_shortcut_comes_before_the_default() {
    assert_eq!(startup_shortcut(&text("Alt+X")), "Alt+X");
    assert_eq!(startup_shortcut(&None), DEFAULT_SHORTCUT);
    assert_eq!(startup_shortcut(&Some(Value::from(1))), "CommandOrControl+Shift+S");
    assert_eq!(startup_shortcut(&text("")), "");
}

#[test]
fn no_choice_can_be_left_out() {
    for (device, language) in [("Default", "auto"), ("", ""), ("Mic", "de")] {
        let mut state = idle();
        let started = state
            .start_recording(1, settings(text("key"), text(device), text(language)))
            .expect("started");
        assert_eq!(picks_default(started.device_name.as_deref()), picks_default(Some(device)));
        assert_eq!(
            start_message("key", started.language.as_deref(), None),
            start_message("key", Some(language), None)
        );
    }
}

#[test]
fn the_key_that_was_set_is_used() {
    for (key, used) in [("secret", Some("secret")), ("", None)] {
        let stored = set_api_key(key.to_string()).into_iter().find_map(|op| match op {
            StoreOp::Put(_, value) => Some(value),
            _ => None,
        });
        let started = idle().start_recording(1, settings(stored, None, None));
        assert_eq!(started.ok().map(|s| s.api_key).as_deref(), used);
    }
}
