use live_transcriber::transcript::{
    bucket_of, gather, is_meaningful, report_error, Bucket, Incoming, Reaction, SonioxMessage,
    SonioxToken, Transcript, TranscriptEvent,
};

fn token(text: &str, is_final: Option<bool>, status: Option<&str>) -> SonioxToken {
    SonioxToken {
        text: text.to_string(),
        is_final,
        translation_status: status.map(|s| s.to_string()),
    }
}

fn tokens(tokens: Vec<SonioxToken>) -> Incoming {
    Incoming::Text(Some(SonioxMessage { tokens: Some(tokens), error: None, error_code: None }))
}

fn shown(reaction: Reaction) -> TranscriptEvent {
    match reaction {
        Reaction::Show(event) => event,
        other => panic!("not shown: {:?}", other),
    }
}

#[test]
fn buckets_follow_the_translation_status() {
    assert_eq!(bucket_of(&Some("translation".to_string())), Bucket::Target);
    assert_eq!(bucket_of(&Some("original".to_string())), Bucket::Source);
    assert_eq!(bucket_of(&Some("none".to_string())), Bucket::Source);
    assert_eq!(bucket_of(&None), Bucket::Source);
}

#[test]
fn markup_and_empty_tokens_carry_no_speech() {
    assert!(!is_meaningful(&token("", Some(true), None)));
    assert!(!is_meaningful(&token("<end>", Some(true), None)));
    assert!(is_meaningful(&token(" <b", None, None)));
    assert!(is_meaningful(&token("a", None, None)));
}

#[test]
fn tokens_are_gathered_by_language_and_finality() {
    let texts = gather(&vec![
        token("Hello", Some(true), Some("original")),
        token(" wor", Some(false), None),
        token("<fin>", Some(true), None),
        token("Hallo", Some(true), Some("translation")),
        token(" We", None, Some("translation")),
        token("ld", None, None),
    ]);
    assert_eq!(texts.source_final, "Hello");
    assert_eq!(texts.source_live, " world");
    assert_eq!(texts.target_final, "Hallo");
    assert_eq!(texts.target_live, " We");
    assert!(texts.any);
}

#[test]
fn settled_text_is_kept_and_live_text_is_not() {
    let mut transcript = Transcript::new(true);
    let event = shown(transcript.receive(tokens(vec![
        token("Good ", Some(true), None),
        token("mor", Some(false), None),
    ])));
    assert_eq!(event.source_stable, "Good");
    assert_eq!(event.source_live, "mor");
    assert_eq!(event.target_stable, "");
    assert_eq!(event.target_live, "");
    assert!(event.has_target);

    let event = shown(transcript.receive(tokens(vec![
        token("morning ", Some(true), None),
        token("Guten", Some(true), Some("translation")),
    ])));
    assert_eq!(event.source_stable, "Good morning");
    assert_eq!(event.source_live, "");
    assert_eq!(event.target_stable, "Guten");
}

#[test]
fn messages_without_speech_are_passed_over() {
    let mut transcript = Transcript::new(false);
    shown(transcript.receive(tokens(vec![token("kept", Some(true), None)])));
    assert!(matches!(transcript.receive(tokens(vec![])), Reaction::Continue));
    assert!(matches!(
        transcript.receive(tokens(vec![token("<end>", Some(true), None)])),
        Reaction::Continue
    ));
    assert!(matches!(transcript.receive(Incoming::Text(None)), Reaction::Continue));
    assert!(matches!(transcript.receive(Incoming::Other), Reaction::Continue));
    let nothing = SonioxMessage { tokens: None, error: None, error_code: Some(3) };
    assert!(matches!(transcript.receive(Incoming::Text(Some(nothing))), Reaction::Continue));
    let event = shown(transcript.receive(tokens(vec![token("!", None, None)])));
    assert_eq!(event.source_stable, "kept");
    assert_eq!(event.source_live, "!");
    assert!(!event.has_target);
}

#[test]
fn the_end_of_the_connection_stops() {
    let mut transcript = Transcript::new(false);
    assert!(matches!(transcript.receive(Incoming::Closed), Reaction::Stop));
    assert!(matches!(transcript.receive(Incoming::Failed), Reaction::Stop));
    assert!(matches!(transcript.receive(Incoming::Ended), Reaction::Stop));
}

#[test]
fn errors_are_reported_with_their_code() {
    assert_eq!(report_error(Some(401), "bad key"), "Soniox [401]: bad key");
    assert_eq!(report_error(Some(-5), "odd"), "Soniox [-5]: odd");
    assert_eq!(report_error(Some(0), "no code"), "Soniox: no code");
    assert_eq!(report_error(None, "no code"), "Soniox: no code");

    let mut transcript = Transcript::new(false);
    let message = SonioxMessage {
        tokens: Some(vec![token("ignored", Some(true), None)]),
        error: Some("quota".to_string()),
        error_code: Some(429),
    };
    match transcript.receive(Incoming::Text(Some(message))) {
        Reaction::Report(report) => assert_eq!(report, "Soniox [429]: quota"),
        other => panic!("not reported: {:?}", other),
    }
    let event = shown(transcript.receive(tokens(vec![token("x", None, None)])));
    assert_eq!(event.source_stable, "");
}

#[test]
fn the_transcript_rolls() {
    let mut transcript = Transcript::new(false);
    for i in 0..120 {
        let event = shown(transcript.receive(tokens(vec![token(
            &format!("w{} ", i),
            Some(true),
            None,
        )])));
        assert_eq!(event.source_stable.split_whitespace().count(), i + 1);
    }
    let event = shown(transcript.receive(tokens(vec![token("w120", Some(true), None)])));
    let words: Vec<&str> = event.source_stable.split_whitespace().collect();
    assert_eq!(words.len(), 80);
    assert_eq!(words[0], "w41");
    assert_eq!(words[79], "w120");
    // The cut ends in a space, so what follows is a word of its own.
    let event = shown(transcript.receive(tokens(vec![token("b", Some(true), None)])));
    assert!(event.source_stable.ends_with("w120 b"));
}

#[test]
fn languages_roll_apart() {
    let mut transcript = Transcript::new(true);
    let many: String = (0..200).map(|i| format!("s{} ", i)).collect();
    let event = shown(transcript.receive(tokens(vec![
        token(&many, Some(true), None),
        token("ziel", Some(true), Some("translation")),
    ])));
    assert_eq!(event.source_stable.split_whitespace().count(), 80);
    assert_eq!(event.target_stable, "ziel");
}

#[test]
fn the_default_event_is_empty() {
    let event = TranscriptEvent::default();
    assert_eq!(event.source_stable, "");
    assert_eq!(event.source_live, "");
    assert_eq!(event.target_stable, "");
    assert_eq!(event.target_live, "");
    assert!(!event.has_target);
}
