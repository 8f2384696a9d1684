use vrcs_core::cloud_events::{
    custom_vocabulary, event_language, gemini_event, gemini_live_event, gemini_live_setup, gemini_setup,
    language_code, openai_live_event, GEMINI_LIVE_CLOSING,
};
use vrcs_core::session_replies::{error_detail, InitializationEvent};
use vrcs_core::streaming::Provider;
use vrcs_core::config::AsrConfig;
use vrcs_core::live_translation::{finish, State, MAX_TRANSCRIPT_BYTES};
use vrcs_core::normalization::NormalizationState;
use vrcs_core::providers::{
    SERVICE_GEMINI_LIVE_TRANSLATE, SERVICE_GEMINI_TRANSCRIBE, SERVICE_OPENAI_REALTIME_TRANSLATE,
};
use vrcs_core::service_settings::RecognitionServiceSettings;
use vrcs_core::streaming::CloudEvent;

const NOW: u64 = 50_000;

fn gemini_live_config() -> AsrConfig {
    AsrConfig {
        backend: SERVICE_GEMINI_LIVE_TRANSLATE.into(),
        live_translation_target: Some("zh-Hant".into()),
        ..Default::default()
    }
}

fn openai_config() -> AsrConfig {
    AsrConfig {
        backend: SERVICE_OPENAI_REALTIME_TRANSLATE.into(),
        live_translation_target: Some("zh-Hant".into()),
        ..Default::default()
    }
}

#[test]
fn audio_and_turn_markers_do_not_drop_or_finalize_text() {
    let config = gemini_live_config();
    let mut state = State::default();
    let first = gemini_live_event(
        &config,
        r#"{"serverContent": {
            "modelTurn": {"parts": [{"inlineData": {"data": "AA=="}}]},
            "outputTranscription": {"text": "你好"}, "turnComplete": true
        }}"#,
        &mut state,
        NOW,
    )
    .unwrap()
    .unwrap();
    let CloudEvent::LiveTranslation {
        snapshot: first, ..
    } = first
    else {
        panic!("expected snapshot")
    };
    assert_eq!(first.translation, "你好");
    assert!(first.text.is_empty());
    let second = gemini_live_event(
        &config,
        r#"{"serverContent": {
            "inputTranscription": {"text": "hello hello", "languageCode": "en"}
        }}"#,
        &mut state,
        NOW,
    )
    .unwrap()
    .unwrap();
    let CloudEvent::LiveTranslation {
        snapshot: second, ..
    } = second
    else {
        panic!("expected snapshot")
    };
    assert_eq!(first.utterance_id, second.utterance_id);
    assert_eq!(second.text, "hello hello");
    assert_eq!(second.translation, "你好");
    assert!(gemini_live_event(
        &config,
        r#"{"serverContent": {"generationComplete": true}}"#,
        &mut state,
        NOW
    )
    .unwrap()
    .is_none());
}

#[test]
fn same_language_does_not_wait_for_translation_and_interrupt_clears_pending_text() {
    let config = gemini_live_config();
    let mut state = State::default();
    let event = gemini_live_event(
        &config,
        r#"{"serverContent": {
            "inputTranscription": {"text": "你好。", "languageCode": "zh-Hant"}
        }}"#,
        &mut state,
        NOW,
    )
    .unwrap()
    .unwrap();
    let CloudEvent::LiveTranslation { completed, .. } = event else {
        panic!()
    };
    assert!(completed.is_empty());
    let event = finish(&config, &mut state, NOW).unwrap();
    let CloudEvent::LiveTranslation { completed, .. } = event else {
        panic!()
    };
    assert_eq!(completed.len(), 1);
    assert!(completed[0].transcript.translation.is_empty());
    gemini_live_event(
        &config,
        r#"{"serverContent": {
            "inputTranscription": {"text": "pending", "languageCode": "en"}
        }}"#,
        &mut state,
        NOW,
    )
    .unwrap();
    gemini_live_event(
        &config,
        r#"{"serverContent": {"interrupted": true}}"#,
        &mut state,
        NOW,
    )
    .unwrap();
    assert!(finish(&config, &mut state, NOW).is_none());
    assert!(state.input.is_empty());
    assert!(state.output.is_empty());
}

#[test]
fn errors_and_limits_are_bounded() {
    let config = gemini_live_config();
    let mut state = State::default();
    assert!(
        gemini_live_event(&config, r#"{"error":{"message":"quota"}}"#, &mut state, NOW).is_err()
    );
    let long = "a".repeat(MAX_TRANSCRIPT_BYTES + 1);
    let message = format!(r#"{{"serverContent":{{"inputTranscription":{{"text":"{long}"}}}}}}"#);
    assert!(gemini_live_event(&config, &message, &mut state, NOW).is_err());
}

#[test]
fn gemini_live_errors_and_interruptions_are_reported() {
    let config = gemini_live_config();
    let mut state = State::default();
    assert_eq!(
        gemini_live_event(&config, r#"{"error":{"message":"quota"}}"#, &mut state, NOW)
            .unwrap_err(),
        "quota"
    );
    assert_eq!(
        gemini_live_event(&config, r#"{"error":{}}"#, &mut state, NOW).unwrap_err(),
        "Gemini Live Translate failed"
    );
    assert_eq!(
        gemini_live_event(&config, r#"{"goAway":{"timeLeft":"1s"}}"#, &mut state, NOW)
            .unwrap_err(),
        GEMINI_LIVE_CLOSING
    );
    assert!(gemini_live_event(&config, r#"{"setupComplete":{}}"#, &mut state, NOW)
        .unwrap()
        .is_none());
    let Some(CloudEvent::Failed {
        utterance_id,
        reset_session,
        code,
        detail,
    }) = gemini_live_event(
        &config,
        r#"{"serverContent":{"interrupted":true}}"#,
        &mut state,
        NOW,
    )
    .unwrap()
    else {
        panic!()
    };
    assert!(utterance_id.is_none() && reset_session);
    assert_eq!(code, "asr.live_translation_interrupted");
    assert_eq!(detail, "Gemini Live Translate output was interrupted");
}

#[test]
fn independent_deltas_keep_repetitions_in_one_stable_window() {
    let config = openai_config();
    let mut state = State::default();
    let mut results = Vec::new();
    let mut translated = Vec::new();
    for (kind, delta, frame) in [
        ("output_transcript", "你好", 400),
        ("input_transcript", "hello", 200),
        ("output_audio", "SGVsbG8=", 400),
        ("input_transcript", " hello.", 400),
        ("input_transcript", " Value 3.", 1000),
        ("input_transcript", "14.", 1200),
        ("output_transcript", "数值3.14", 1400),
    ] {
        let message = format!(
            r#"{{"type": "session.{kind}.delta", "delta": "{delta}", "elapsed_ms": {frame}}}"#
        );
        if let Some(CloudEvent::LiveTranslation {
            completed,
            translations,
            ..
        }) = openai_live_event(&config, &message, &mut state, NOW).unwrap()
        {
            results.extend(completed);
            translated.extend(translations.into_iter().filter(|update| !update.pending));
        }
    }
    if let Some(CloudEvent::LiveTranslation {
        completed,
        translations,
        ..
    }) = finish(&config, &mut state, NOW)
    {
        results.extend(completed);
        translated.extend(translations);
    }
    assert_eq!(results.len(), 2);
    assert_eq!(results[0].transcript.text, "hello hello.");
    assert_eq!(results[1].transcript.text, "Value 3.14.");
    assert_eq!(translated.len(), 1);
    assert_eq!(translated[0].transcript.text, "hello hello. Value 3.14.");
    assert_eq!(translated[0].transcript.translation, "你好数值3.14");
    assert_eq!(
        translated[0].source_utterance_ids,
        results
            .iter()
            .map(|source| source.transcript.utterance_id.clone())
            .collect::<Vec<_>>()
    );
    assert!(results.iter().all(|r| r.provider == "openai"
        && r.model == "gpt-realtime-translate"
        && r.transcript.language.is_none()));
    assert!(finish(&config, &mut state, NOW).is_none());
}

#[test]
fn missing_frames_keep_a_stable_one_to_one_window() {
    let config = openai_config();
    let mut state = State::default();
    for event in [
        r#"{"type":"session.input_transcript.delta","delta":"Hello."}"#,
        r#"{"type":"session.output_transcript.delta","delta":"你好"}"#,
    ] {
        openai_live_event(&config, event, &mut state, NOW).unwrap();
    }
    let Some(CloudEvent::LiveTranslation { translations, .. }) = finish(&config, &mut state, NOW)
    else {
        panic!()
    };
    assert_eq!(translations.len(), 1);
    assert_eq!(translations[0].transcript.translation, "你好");
}

#[test]
fn a_missing_translation_falls_back_to_one_shared_window() {
    let config = openai_config();
    let mut state = State::default();
    let mut updates = Vec::new();
    for (kind, text, frame) in [
        ("input", "First.", 200),
        ("output", "第一句", 400),
        ("input", " Missing.", 1000),
        ("input", " Third.", 2000),
        ("output", "第三句。还有补充。", 2400),
    ] {
        let message = format!(
            r#"{{"type": "session.{kind}_transcript.delta", "delta": "{text}", "elapsed_ms": {frame}}}"#
        );
        if let Some(CloudEvent::LiveTranslation { translations, .. }) =
            openai_live_event(&config, &message, &mut state, NOW).unwrap()
        {
            updates.extend(translations.into_iter().filter(|t| !t.pending));
        }
    }
    if let Some(CloudEvent::LiveTranslation { translations, .. }) =
        finish(&config, &mut state, NOW)
    {
        updates.extend(translations);
    }
    assert_eq!(updates.len(), 1);
    assert_eq!(updates[0].source_utterance_ids.len(), 3);
    assert_eq!(updates[0].transcript.text, "First. Missing. Third.");
    assert_eq!(
        updates[0].transcript.translation,
        "第一句第三句。 还有补充。"
    );
}

#[test]
fn openai_errors_are_recoverable_and_keep_pending_text() {
    let config = openai_config();
    let mut state = State::default();
    openai_live_event(
        &config,
        r#"{"type":"session.input_transcript.delta","delta":"Hello"}"#,
        &mut state,
        NOW,
    )
    .unwrap();
    let error = r#"{"type":"error","error":{"type":"invalid_request_error","code":"bad_audio","param":"audio","message":"Invalid audio"}}"#;
    assert!(openai_live_event(&config, error, &mut state, NOW)
        .unwrap()
        .is_none());
    assert_eq!(state.input, "Hello");
    assert!(state.timing.is_some());
}

#[test]
fn normalizes_interim_and_final_transcripts() {
    let config = AsrConfig::default();
    let mut state = NormalizationState::new();
    let partial = gemini_event(
        &config,
        r#"{"serverContent":{"interimInputTranscription":{"text":"hello"}}}"#,
        &mut state,
    )
    .unwrap();
    let partial_id = match partial {
        CloudEvent::Partial {
            utterance_id,
            text,
            language,
        } => {
            assert_eq!(text, "hello");
            assert_eq!(language, None);
            utterance_id
        }
        other => panic!("unexpected event: {other:?}"),
    };

    let final_event = gemini_event(
        &config,
        r#"{"serverContent":{"inputTranscription":{"text":"hello world"}}}"#,
        &mut state,
    )
    .unwrap();
    assert_eq!(
        final_event,
        CloudEvent::Final {
            utterance_id: partial_id,
            text: "hello world".into(),
            language: None,
        }
    );
}

#[test]
fn gemini_errors_fail_the_open_utterance() {
    let config = AsrConfig {
        language: "ja".into(),
        ..AsrConfig::default()
    };
    let mut state = NormalizationState::new();
    let Some(CloudEvent::Partial {
        utterance_id,
        language,
        ..
    }) = gemini_event(
        &config,
        r#"{"serverContent":{"interimInputTranscription":{"text":"a"}}}"#,
        &mut state,
    )
    else {
        panic!()
    };
    assert_eq!(language.as_deref(), Some("ja"));
    let Some(CloudEvent::Failed {
        utterance_id: failed,
        reset_session,
        code,
        detail,
    }) = gemini_event(&config, r#"{"error":{"message":"boom"}}"#, &mut state)
    else {
        panic!()
    };
    assert_eq!(failed, Some(utterance_id));
    assert!(!reset_session);
    assert_eq!(code, "asr.cloud_error");
    assert_eq!(detail, "boom");
    let Some(CloudEvent::Failed {
        utterance_id,
        reset_session,
        detail,
        ..
    }) = gemini_event(&config, r#"{"error":{}}"#, &mut state)
    else {
        panic!()
    };
    assert!(utterance_id.is_none() && reset_session);
    assert_eq!(detail, "Gemini transcription request failed");
    assert!(gemini_event(
        &config,
        r#"{"serverContent":{"interimInputTranscription":{"text":""}}}"#,
        &mut state
    )
    .is_none());
    let Some(CloudEvent::Final { utterance_id, .. }) = gemini_event(
        &config,
        r#"{"item_id":"x-1","serverContent":{"inputTranscription":{"text":"done"}}}"#,
        &mut state,
    ) else {
        panic!()
    };
    assert_eq!(utterance_id, "x-1");
}

#[test]
fn event_language_prefers_the_reported_language() {
    let config = AsrConfig::default();
    assert_eq!(event_language(&config, r#"{"language":"de"}"#).as_deref(), Some("de"));
    assert_eq!(event_language(&config, r#"{}"#), None);
    let fixed = AsrConfig {
        language: "ko".into(),
        ..AsrConfig::default()
    };
    assert_eq!(event_language(&fixed, r#"{}"#).as_deref(), Some("ko"));
}

#[test]
fn gemini_setup_maps_language_and_context() {
    let mut config = AsrConfig {
        language: "zh".into(),
        ..AsrConfig::default()
    };
    config.service_settings.insert(
        SERVICE_GEMINI_TRANSCRIBE.to_string(),
        RecognitionServiceSettings {
            model: "gemini-3.5-transcribe-live".into(),
            context: "VRChat\n Gemini \nVRChat\n".into(),
        },
    );
    let setup = gemini_setup(&config).unwrap();
    assert_eq!(setup.model, "models/gemini-3.5-transcribe-live");
    assert_eq!(setup.language_code.as_deref(), Some("cmn-Hans-CN"));
    assert_eq!(setup.vocabulary, vec!["VRChat", "Gemini"]);
    assert_eq!(language_code("auto"), None);
    assert_eq!(language_code("es").as_deref(), Some("es-419"));
    assert_eq!(language_code("pt").as_deref(), Some("pt"));
}

#[test]
fn vocabulary_keeps_at_most_one_hundred_distinct_terms() {
    let context: String = (0..150).map(|i| format!("term{}\r\n", i % 120)).collect();
    let terms = custom_vocabulary(&context);
    assert_eq!(terms.len(), 100);
    assert_eq!(terms[0], "term0");
    assert_eq!(terms[99], "term99");
    assert!(custom_vocabulary("\n \n").is_empty());
}

#[test]
fn setup_maps_language_and_context_to_transcription_config() {
    let mut config = AsrConfig {
        language: "zh".into(),
        ..AsrConfig::default()
    };
    assert!(config
        .service_settings
        .set_context(SERVICE_GEMINI_TRANSCRIBE, "VRChat\n Gemini \nVRChat\n"));
    let setup = gemini_setup(&config).unwrap();
    assert_eq!(setup.model, "models/gemini-3.5-transcribe-live");
    assert_eq!(setup.language_code.as_deref(), Some("cmn-Hans-CN"));
    assert_eq!(setup.vocabulary, vec!["VRChat", "Gemini"]);
}

#[test]
fn setup_uses_empty_language_codes_for_auto_detection() {
    let setup = gemini_setup(&AsrConfig::default()).unwrap();
    assert_eq!(setup.language_code, None);
}

#[test]
fn setup_requires_target_and_requests_both_transcripts() {
    let setup = gemini_live_setup(&gemini_live_config()).unwrap();
    assert_eq!(setup.target_language, "zh-Hant");
    assert!(setup.model.starts_with("models/"));
    assert!(!setup.model["models/".len()..].starts_with("models/"));
    assert!(gemini_live_setup(&AsrConfig::default()).is_err());
}

#[test]
fn recoverable_errors_keep_pending_text_and_report_details() {
    let config = openai_config();
    let mut state = State::default();
    openai_live_event(
        &config,
        r#"{"type":"session.input_transcript.delta","delta":"Hello"}"#,
        &mut state,
        NOW,
    )
    .unwrap();
    let error = r#"{"type":"error","error":{"type":"invalid_request_error","code":"bad_audio","param":"audio","message":"Invalid audio"}}"#;
    assert!(openai_live_event(&config, error, &mut state, NOW)
        .unwrap()
        .is_none());
    let detail = error_detail(error);
    assert!(detail.contains("bad_audio") && detail.contains("param=audio"));
    assert_eq!(state.input, "Hello");
    let update = r#"{"type":"session.update","session":{"audio":{"input":{"transcription":{"model":"gpt-realtime-whisper"},"noise_reduction":null},"output":{"language":"zh"}}}}"#;
    assert!(matches!(
        Provider::OpenAiLiveTranslate.initialization_event(error, update),
        InitializationEvent::Failed(_)
    ));
}
