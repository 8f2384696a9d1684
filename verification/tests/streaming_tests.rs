use vrcs_core::config::{ApiProfile, AsrConfig};
use vrcs_core::providers::{
    ALIBABA_PROVIDER, CAPABILITY_SPEECH_TO_TEXT, OPENAI_PROVIDER, SERVICE_FUN_ASR_REALTIME,
    SERVICE_GROQ_TRANSCRIPTION, SERVICE_OPENAI_REALTIME, SERVICE_OPENAI_REALTIME_TRANSLATE,
    SERVICE_QWEN_REALTIME,
};
use vrcs_core::streaming::{
    active_profile, reconnect_attempted, resolve_test_service, session_ended,
    audio_packets, check_request, streaming_test_backend, take_audio_packet, take_buffered_audio, validate_cloud_connection,
    CloudEvent, Provider, SegmentationMode, INITIAL_BACKOFF_MS, MAX_BACKOFF_MS,
};

fn asr_profile(provider: &str) -> ApiProfile {
    ApiProfile {
        id: "profile".into(),
        name: "Test".into(),
        provider: provider.into(),
        enabled_capabilities: vec![CAPABILITY_SPEECH_TO_TEXT.into()],
        ..ApiProfile::default()
    }
}

#[test]
fn active_profile_must_own_the_selected_service() {
    let mut config = AsrConfig {
        backend: SERVICE_QWEN_REALTIME.into(),
        active_profile_id: Some("profile".into()),
        api_profiles: vec![asr_profile(ALIBABA_PROVIDER)],
        ..AsrConfig::default()
    };
    let index = active_profile(&config).unwrap();
    assert_eq!(config.api_profiles[index].id, "profile");

    config.api_profiles[0].provider = OPENAI_PROVIDER.into();
    assert!(active_profile(&config).is_err());
}

#[test]
fn explicit_test_service_selects_any_compatible_realtime_service() {
    let alibaba = asr_profile(ALIBABA_PROVIDER);
    assert_eq!(
        resolve_test_service(&alibaba, SERVICE_QWEN_REALTIME, Some(SERVICE_FUN_ASR_REALTIME))
            .unwrap(),
        SERVICE_FUN_ASR_REALTIME
    );
    assert_eq!(
        resolve_test_service(&alibaba, SERVICE_FUN_ASR_REALTIME, Some(SERVICE_QWEN_REALTIME))
            .unwrap(),
        SERVICE_QWEN_REALTIME
    );

    let openai = asr_profile(OPENAI_PROVIDER);
    assert_eq!(
        resolve_test_service(&openai, "local_whisper", Some(SERVICE_OPENAI_REALTIME)).unwrap(),
        SERVICE_OPENAI_REALTIME
    );
    assert!(
        resolve_test_service(&alibaba, SERVICE_QWEN_REALTIME, Some(SERVICE_OPENAI_REALTIME))
            .is_err()
    );
    assert!(
        resolve_test_service(&openai, SERVICE_OPENAI_REALTIME, Some(SERVICE_FUN_ASR_REALTIME))
            .is_err()
    );
    assert!(Provider::from_service(SERVICE_GROQ_TRANSCRIPTION).is_err());
}

#[test]
fn test_service_falls_back_to_a_realtime_service_on_the_profile() {
    let alibaba = asr_profile(ALIBABA_PROVIDER);
    assert_eq!(
        resolve_test_service(&alibaba, SERVICE_FUN_ASR_REALTIME, None).unwrap(),
        SERVICE_FUN_ASR_REALTIME
    );
    assert_eq!(
        resolve_test_service(&alibaba, SERVICE_OPENAI_REALTIME, None).unwrap(),
        SERVICE_QWEN_REALTIME
    );

    let openai = asr_profile(OPENAI_PROVIDER);
    assert_eq!(
        resolve_test_service(&openai, SERVICE_QWEN_REALTIME, None).unwrap(),
        SERVICE_OPENAI_REALTIME
    );
}

#[test]
fn providers_expose_their_segmentation_modes_and_packet_sizes() {
    let qwen = Provider::from_service(SERVICE_QWEN_REALTIME).unwrap();
    assert_eq!(qwen.segmentation_mode(), SegmentationMode::LocalCommit);
    assert_eq!(qwen.audio_packet_samples(), 1600);
    let fun = Provider::from_service(SERVICE_FUN_ASR_REALTIME).unwrap();
    assert_eq!(fun.segmentation_mode(), SegmentationMode::ServerVad);
    let live = Provider::from_service(SERVICE_OPENAI_REALTIME_TRANSLATE).unwrap();
    assert_eq!(live.segmentation_mode(), SegmentationMode::Continuous);
    assert_eq!(live.audio_packet_samples(), 3200);
    assert_eq!(
        Provider::from_service("nope").unwrap_err(),
        "Service nope is not a recognition service"
    );
    assert_eq!(
        Provider::from_service(SERVICE_GROQ_TRANSCRIPTION).unwrap_err(),
        "Service groq_transcription is not a realtime cloud recognition service"
    );
}

#[test]
fn unknown_test_profile_and_missing_key_are_reported() {
    let config = AsrConfig {
        backend: SERVICE_QWEN_REALTIME.into(),
        active_profile_id: Some("profile".into()),
        api_profiles: vec![asr_profile(ALIBABA_PROVIDER)],
        ..AsrConfig::default()
    };
    assert_eq!(
        streaming_test_backend(&config, "other", None).unwrap_err(),
        "API profile does not exist"
    );
    assert_eq!(
        streaming_test_backend(&config, "profile", None).unwrap(),
        SERVICE_QWEN_REALTIME
    );
    assert_eq!(
        validate_cloud_connection(&config, &None).unwrap_err(),
        "API key is not configured for Test"
    );
    assert_eq!(
        validate_cloud_connection(&config, &Some("key".into())).unwrap_err(),
        "Alibaba Cloud Workspace ID is not configured"
    );
    let mut profile = asr_profile(ALIBABA_PROVIDER);
    profile.workspace_id = Some("ws-example".into());
    let config = AsrConfig {
        api_profiles: vec![profile],
        ..config
    };
    assert!(validate_cloud_connection(&config, &Some("key".into())).is_ok());
    let unselected = AsrConfig {
        active_profile_id: None,
        ..config
    };
    assert_eq!(
        active_profile(&unselected).unwrap_err(),
        "No API profile is selected for service qwen_realtime"
    );
}

const AUDIO_PACKET_SAMPLES: usize = 1600;

#[test]
fn audio_buffer_flushes_the_final_partial_packet() {
    let mut buffer = Vec::new();
    let mut sent_samples = 0;
    for _ in 0..13 {
        buffer.extend(vec![0.0_f32; 512]);
        while let Some(packet) = take_audio_packet(&mut buffer, AUDIO_PACKET_SAMPLES) {
            assert_eq!(packet.len(), 1600);
            sent_samples += packet.len();
        }
    }

    assert_eq!(sent_samples, 6400);
    assert_eq!(buffer.len(), 256);
    let final_packet = take_buffered_audio(&mut buffer).unwrap();
    assert_eq!(final_packet.len(), 256);
    assert!(buffer.is_empty());
    assert_eq!(sent_samples + final_packet.len(), 6656);
}

#[test]
fn empty_audio_buffer_does_not_create_a_packet() {
    assert!(take_buffered_audio(&mut Vec::<f32>::new()).is_none());
}

#[test]
fn packets_keep_the_sample_order() {
    let mut buffer: Vec<u32> = (0..5).collect();
    assert_eq!(take_audio_packet(&mut buffer, 3), Some(vec![0, 1, 2]));
    assert_eq!(buffer, vec![3, 4]);
    assert_eq!(take_audio_packet(&mut buffer, 3), None);
    assert_eq!(buffer, vec![3, 4]);
}

fn failure_parts(event: Option<CloudEvent>) -> (Option<String>, bool, String, String) {
    match event {
        Some(CloudEvent::Failed {
            utterance_id,
            reset_session,
            code,
            detail,
        }) => (utterance_id, reset_session, code, detail),
        _ => panic!("expected a failure"),
    }
}

#[test]
fn a_closed_session_reconnects_only_under_the_reconnect_policy() {
    let (event, again) = session_ended(Ok(()), false, "reconnect");
    assert!(again);
    assert_eq!(
        failure_parts(event),
        (
            None,
            true,
            "asr.cloud_disconnected".to_string(),
            "Cloud recognition connection was closed".to_string()
        )
    );
    let (event, again) = session_ended(Err("socket reset".into()), false, "fail");
    assert!(!again);
    assert_eq!(failure_parts(event).3, "socket reset");
}

#[test]
fn stopping_reports_only_a_failed_drain() {
    assert_eq!(session_ended(Ok(()), true, "reconnect"), (None, false));
    let (event, again) = session_ended(Err("drain".into()), true, "reconnect");
    assert!(!again);
    assert_eq!(
        failure_parts(event),
        (None, true, "asr.cloud_drain_failed".to_string(), "drain".to_string())
    );
}

#[test]
fn reconnect_backoff_doubles_up_to_eight_seconds_and_resets() {
    let mut backoff = INITIAL_BACKOFF_MS;
    let mut seen = Vec::new();
    for _ in 0..6 {
        let (event, next) = reconnect_attempted(Err("refused".into()), backoff);
        assert_eq!(failure_parts(event).2, "asr.cloud_reconnect_failed");
        backoff = next;
        seen.push(backoff);
    }
    assert_eq!(seen, vec![1000, 2000, 4000, 8000, 8000, 8000]);
    assert_eq!(reconnect_attempted(Ok(()), backoff), (None, INITIAL_BACKOFF_MS));
    assert_eq!(MAX_BACKOFF_MS, 8000);
}

#[test]
fn captured_audio_is_sent_in_whole_packets() {
    let mut buffer = vec![1, 2];
    let packets = audio_packets(&mut buffer, vec![3, 4, 5, 6, 7], 3);
    assert_eq!(packets, vec![vec![1, 2, 3], vec![4, 5, 6]]);
    assert_eq!(buffer, vec![7]);
    let packets = audio_packets(&mut buffer, vec![8], 3);
    assert!(packets.is_empty());
    assert_eq!(buffer, vec![7, 8]);
}

#[test]
fn connection_check_builds_the_request() {
    let mut config = AsrConfig {
        backend: SERVICE_OPENAI_REALTIME_TRANSLATE.into(),
        active_profile_id: Some("profile".into()),
        api_profiles: vec![asr_profile(OPENAI_PROVIDER)],
        ..AsrConfig::default()
    };
    assert!(validate_cloud_connection(&config, &Some("sk-test".into())).is_ok());
    assert!(validate_cloud_connection(&config, &Some("sk-t\u{e9}st\tkey".into())).is_ok());
    assert_eq!(
        validate_cloud_connection(&config, &Some("sk-\ntest".into())).unwrap_err(),
        "API key contains invalid characters"
    );
    assert_eq!(
        validate_cloud_connection(&config, &Some("sk-\u{7f}".into())).unwrap_err(),
        "API key contains invalid characters"
    );
    config.service_settings = vrcs_core::service_settings::ServiceSettingsMap::new();
    assert_eq!(
        validate_cloud_connection(&config, &Some("sk-test".into())).unwrap_err(),
        "Recognition settings are missing for service openai_realtime_translate"
    );
}

#[test]
fn qwen_request_rejects_missing_workspace() {
    let config = AsrConfig {
        backend: "qwen_realtime".into(),
        ..AsrConfig::default()
    };
    let profile = ApiProfile {
        id: "profile".into(),
        name: "Test".into(),
        provider: ALIBABA_PROVIDER.into(),
        region: Some("china_beijing".into()),
        workspace_id: Some(String::new()),
        base_url: None,
        ..ApiProfile::default()
    };
    let provider = Provider::from_config(&config).unwrap();
    assert_eq!(
        check_request(&config, provider, &profile, "sk-test").unwrap_err(),
        "Alibaba Cloud Workspace ID is not configured"
    );
}
