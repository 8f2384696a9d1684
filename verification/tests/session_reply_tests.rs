use vrcs_core::config::AsrConfig;
use vrcs_core::live_translation::{append, State};
use vrcs_core::providers::SERVICE_OPENAI_REALTIME_TRANSLATE;
use vrcs_core::session_replies::{error_detail, InitializationEvent};
use vrcs_core::streaming::{CloudEvent, Provider};

const UPDATE: &str = r#"{"type":"session.update","session":{"audio":{"input":{"transcription":{"model":"gpt-realtime-whisper"},"noise_reduction":null},"output":{"language":"zh"}}}}"#;

#[test]
fn realtime_sessions_are_ready_once_the_update_is_confirmed() {
    for provider in [Provider::Qwen, Provider::TokenPlan, Provider::OpenAi] {
        assert_eq!(
            provider.initialization_event(r#"{"type":"session.updated"}"#, "{}"),
            InitializationEvent::Ready
        );
        assert_eq!(
            provider.initialization_event(r#"{"type":"error","error":{"message":"bad key"}}"#, "{}"),
            InitializationEvent::Failed("bad key".into())
        );
        assert_eq!(
            provider.initialization_event(r#"{"type":"error"}"#, "{}"),
            InitializationEvent::Failed("Cloud recognition session configuration failed".into())
        );
        assert_eq!(
            provider.initialization_event(r#"{"type":"session.created"}"#, "{}"),
            InitializationEvent::Pending
        );
    }
}

#[test]
fn fun_asr_reports_setup_in_its_header() {
    let p = Provider::FunAsr;
    assert_eq!(
        p.initialization_event(r#"{"header":{"event":"task-started"}}"#, "{}"),
        InitializationEvent::Ready
    );
    assert_eq!(
        p.initialization_event(r#"{"header":{"event":"task-failed","error_message":"quota"}}"#, "{}"),
        InitializationEvent::Failed("quota".into())
    );
    assert!(p.is_finished(r#"{"header":{"event":"task-finished"}}"#));
    assert!(!p.is_finished(r#"{"type":"session.finished"}"#));
}

#[test]
fn gemini_is_ready_when_setup_completes() {
    for p in [Provider::Gemini, Provider::GeminiLiveTranslate] {
        assert_eq!(p.initialization_event(r#"{"setupComplete":{}}"#, "{}"), InitializationEvent::Ready);
        assert_eq!(
            p.initialization_event(r#"{"error":{"code":400}}"#, "{}"),
            InitializationEvent::Failed("Gemini transcription session configuration failed".into())
        );
        assert_eq!(p.initialization_event(r#"{"serverContent":{}}"#, "{}"), InitializationEvent::Pending);
        assert!(!p.is_finished(r#"{"type":"session.closed"}"#));
        assert_eq!(
            p.connection_error("https://example.test/?key=secret"),
            "Failed to connect to Gemini transcription service"
        );
    }
}

#[test]
fn openai_translation_must_confirm_target_and_transcription_model() {
    let p = Provider::OpenAiLiveTranslate;
    let confirmed = r#"{"type":"session.updated","session":{"audio":{"input":{"transcription":{"model":"gpt-realtime-whisper"}},"output":{"language":"zh"}}}}"#;
    assert_eq!(p.initialization_event(confirmed, UPDATE), InitializationEvent::Ready);
    let other_target = r#"{"type":"session.updated","session":{"audio":{"input":{"transcription":{"model":"gpt-realtime-whisper"}},"output":{"language":"ja"}}}}"#;
    assert_eq!(
        p.initialization_event(other_target, UPDATE),
        InitializationEvent::Failed(
            "OpenAI did not confirm the requested translation target and source transcription model".into()
        )
    );
    assert_eq!(
        p.initialization_event(r#"{"type":"session.closed"}"#, UPDATE),
        InitializationEvent::Failed(
            "OpenAI closed the translation session before configuration completed".into()
        )
    );
    assert!(p.is_finished(r#"{"type":"session.closed"}"#));
    assert_eq!(
        p.connection_error("refused"),
        "Failed to connect to cloud recognition service: refused"
    );
}

#[test]
fn openai_error_details_list_the_string_fields() {
    assert_eq!(
        error_detail(r#"{"type":"error","error":{"message":"Bad","type":"invalid_request_error","code":"x","param":null,"event_id":"e1"}}"#),
        "Bad; type=invalid_request_error; code=x; event_id=e1"
    );
    assert_eq!(error_detail(r#"{"type":"error"}"#), "OpenAI Realtime Translation failed");
}

#[test]
fn only_live_translation_adapters_have_translations_to_poll() {
    let config = AsrConfig {
        backend: SERVICE_OPENAI_REALTIME_TRANSLATE.into(),
        live_translation_target: Some("zh-Hans".into()),
        ..Default::default()
    };
    let mut state = State::default();
    append(&config, &mut state, "Hello. More", "", None, 0).unwrap();
    assert!(Provider::Qwen.poll_translation(&config, &mut state, 100_000).is_none());
    assert!(Provider::Qwen.finish_translation(&config, &mut state, 100_000).is_none());
    let finished = Provider::OpenAiLiveTranslate.finish_translation(&config, &mut state, 100_000);
    assert!(matches!(finished, Some(CloudEvent::LiveTranslation { .. })));
}

#[test]
fn only_openai_translation_sessions_are_closed_by_the_service() {
    let closed = r#"{"type":"session.closed"}"#;
    assert!(Provider::OpenAiLiveTranslate.ends_session(closed));
    assert!(!Provider::Qwen.ends_session(closed));
    assert_eq!(vrcs_core::session_replies::TRANSLATION_CLOSED, "OpenAI closed the translation session");
}

#[test]
fn ending_a_session_waits_longer_for_live_translation() {
    assert_eq!(Provider::GeminiLiveTranslate.finish_plan(), (5, 5000));
    assert_eq!(Provider::OpenAiLiveTranslate.finish_plan(), (0, 5000));
    assert_eq!(Provider::Qwen.finish_plan(), (0, 3000));
    assert_eq!(Provider::FunAsr.finish_plan(), (0, 3000));
}

#[test]
fn only_openai_translation_reports_a_failed_ending() {
    let timeout = Err("Timed out waiting for cloud recognition to finish".to_string());
    assert_eq!(Provider::OpenAiLiveTranslate.finish_outcome(timeout.clone()), (false, timeout.clone()));
    assert_eq!(Provider::OpenAiLiveTranslate.finish_outcome(Ok(())), (true, Ok(())));
    assert_eq!(Provider::Gemini.finish_outcome(timeout), (true, Ok(())));
}
