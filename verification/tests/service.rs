use live_transcriber::key_test::{check_key, judge, test_api_key, Answer, TestAction, TestEvent};
use live_transcriber::service::{
    finalize_message, has_translation, key_test_message, open_step, send_failed, send_step,
    start_message, OpenAction, OpenEvent, Outgoing, SendEvent,
};
use live_transcriber::transcript::SonioxMessage;

fn parsed(text: &str) -> serde_json::Value {
    serde_json::from_str(text).expect("JSON")
}

#[test]
fn the_key_test_sends_the_basic_configuration() {
    assert_eq!(
        key_test_message("k\"1"),
        "{\"api_key\":\"k\\\"1\",\"audio_format\":\"pcm_s16le\",\"model\":\"stt-rt-v4\",\
         \"num_channels\":1,\"sample_rate\":16000}"
    );
}

#[test]
fn a_recording_sends_language_and_translation() {
    let text = start_message("key", Some("de"), Some("en"));
    assert_eq!(
        parsed(&text),
        parsed(
            "{\"api_key\":\"key\",\"model\":\"stt-rt-v4\",\"audio_format\":\"pcm_s16le\",\
             \"sample_rate\":16000,\"num_channels\":1,\"include_word_timing\":true,\
             \"language_hints\":[\"de\"],\
             \"translation\":{\"type\":\"one_way\",\"target_language\":\"en\"}}"
        )
    );
}

#[test]
fn no_choice_sends_neither() {
    let plain = start_message("key", None, None);
    assert_eq!(
        parsed(&plain),
        parsed(
            "{\"api_key\":\"key\",\"model\":\"stt-rt-v4\",\"audio_format\":\"pcm_s16le\",\
             \"sample_rate\":16000,\"num_channels\":1,\"include_word_timing\":true}"
        )
    );
    assert_eq!(start_message("key", Some("auto"), Some("none")), plain);
    assert_eq!(start_message("key", Some(""), Some("")), plain);
    assert_ne!(start_message("key", Some("none"), None), plain);
    assert_ne!(start_message("key", None, Some("auto")), plain);
}

#[test]
fn a_recording_extends_the_key_test() {
    let basic = parsed(&key_test_message("key"));
    let full = parsed(&start_message("key", Some("fr"), Some("en")));
    for (name, value) in basic.as_object().expect("an object") {
        assert_eq!(full.get(name), Some(value));
    }
}

#[test]
fn translation_needs_a_language() {
    assert!(has_translation(Some("en")));
    assert!(!has_translation(Some("none")));
    assert!(!has_translation(Some("")));
    assert!(!has_translation(None));
}

#[test]
fn sound_is_sent_as_it_comes() {
    let step = send_step(SendEvent::Chunk(vec![1, 2, 3]));
    assert!(!step.stop_capture && !step.done);
    assert_eq!(step.send.len(), 1);
    assert!(matches!(&step.send[0], Outgoing::Binary(bytes) if *bytes == vec![1, 2, 3]));
}

#[test]
fn a_user_stop_finishes_and_closes() {
    assert_eq!(finalize_message(), "{\"type\":\"finalize\"}");
    let step = send_step(SendEvent::UserStopped);
    assert!(step.stop_capture && step.done);
    assert_eq!(step.send.len(), 2);
    assert!(matches!(&step.send[0], Outgoing::Text(text) if text == "{\"type\":\"finalize\"}"));
    assert!(matches!(&step.send[1], Outgoing::Close));
}

#[test]
fn other_ends_send_nothing() {
    for (event, stops) in [
        (SendEvent::ReceiverEnded, true),
        (SendEvent::ChunksEnded, false),
    ] {
        let step = send_step(event);
        assert!(step.done);
        assert_eq!(step.stop_capture, stops);
        assert!(step.send.is_empty());
    }
}

#[test]
fn a_session_opens_with_the_start_message() {
    let step = |event| open_step("key", Some("de"), Some("en"), event);
    match step(OpenEvent::Connected) {
        OpenAction::Send(text) => {
            assert_eq!(text, start_message("key", Some("de"), Some("en")));
            assert_ne!(text, key_test_message("key"));
        }
        other => panic!("{:?}", other),
    }
    assert!(matches!(step(OpenEvent::StartSent), OpenAction::Run));
    for (event, expected) in [
        (OpenEvent::ConnectFailed, "Failed to connect to Soniox. Check internet/key."),
        (OpenEvent::StartFailed, "Failed to send start config"),
    ] {
        match step(event) {
            OpenAction::Fail(error) => assert_eq!(error, expected),
            other => panic!("{:?}", other),
        }
    }
}

#[test]
fn a_failed_send_ends_the_session() {
    let step = send_failed(send_step(SendEvent::Chunk(vec![1])));
    assert!(step.done && step.stop_capture && step.send.is_empty());
    // What is left of the last step is still sent.
    let mut last = send_step(SendEvent::UserStopped);
    last.send.remove(0);
    let next = send_failed(last);
    assert!(next.done && next.stop_capture);
    assert_eq!(next.send.len(), 1);
    assert!(matches!(&next.send[0], Outgoing::Close));
    let ended = send_failed(send_step(SendEvent::ChunksEnded));
    assert!(ended.done && !ended.stop_capture && ended.send.is_empty());
}

#[test]
fn a_key_must_be_given() {
    assert_eq!(check_key("  \t"), Err("Empty key".to_string()));
    assert_eq!(check_key(""), Err("Empty key".to_string()));
    assert_eq!(check_key(" k "), Ok(()));
}

#[test]
fn the_key_test_runs_its_course() {
    match test_api_key("key", TestEvent::Connected) {
        TestAction::Send(text) => assert_eq!(text, key_test_message("key")),
        other => panic!("{:?}", other),
    }
    assert!(matches!(test_api_key("key", TestEvent::ConfigSent), TestAction::Await));
    assert!(matches!(
        test_api_key("key", TestEvent::AnswerTimedOut),
        TestAction::Close(Ok(()))
    ));
    for (event, expected) in [
        (TestEvent::ConnectTimedOut, "Connection timed out"),
        (TestEvent::ConnectFailed, "Failed to connect to Soniox"),
        (TestEvent::SendFailed, "Failed to send config"),
    ] {
        match test_api_key("key", event) {
            TestAction::Finish(Err(error)) => assert_eq!(error, expected),
            other => panic!("{:?}", other),
        }
    }
    assert!(matches!(
        test_api_key("key", TestEvent::Answered(Answer::Other)),
        TestAction::Await
    ));
    match test_api_key("key", TestEvent::Answered(Answer::Closed(None))) {
        TestAction::Close(Err(error)) => assert_eq!(error, "Server closed connection"),
        other => panic!("{:?}", other),
    }
}

#[test]
fn answers_are_judged() {
    let failing = SonioxMessage {
        tokens: None,
        error: Some("bad key".to_string()),
        error_code: Some(401),
    };
    let silent = SonioxMessage { tokens: None, error: None, error_code: None };
    assert_eq!(
        judge(Answer::Text(Some(failing))),
        Some(Err("Soniox: bad key".to_string()))
    );
    assert_eq!(judge(Answer::Text(Some(silent))), Some(Ok(())));
    assert_eq!(judge(Answer::Text(None)), Some(Ok(())));
    assert_eq!(judge(Answer::Other), None);
    assert_eq!(
        judge(Answer::Closed(Some("bye".to_string()))),
        Some(Err("Server closed: bye".to_string()))
    );
    assert_eq!(
        judge(Answer::Failed("reset".to_string())),
        Some(Err("WS error: reset".to_string()))
    );
    assert_eq!(judge(Answer::Ended), Some(Ok(())));
}
