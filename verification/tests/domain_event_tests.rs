use vrcs_core::domain_events::{now_iso8601, DomainEvent, API_VERSION, EVENT_TYPES};
use vrcs_core::models::{LiveTranslation, Subtitle};

#[test]
fn envelopes_have_stable_version_unique_ids_and_utc_timestamps() {
    let first = DomainEvent::new("asr.partial", "utterance-1", "speaker", "{}".to_string());
    let second = DomainEvent::new("asr.partial", "utterance-1", "speaker", "{}".to_string());

    assert_eq!(first.api_version, "1.0");
    assert_ne!(first.event_id, second.event_id);
    assert!(first.timestamp.ends_with('Z'));
    assert_eq!(first.message_id, second.message_id);
}

#[test]
fn every_published_type_is_listed() {
    assert_eq!(API_VERSION, "1.0");
    assert_eq!(EVENT_TYPES.len(), 11);
    for event_type in [
        DomainEvent::asr_reset("speaker").event_type,
        DomainEvent::asr_cancelled("u", "speaker", "silence").event_type,
        DomainEvent::chatbox_sent("m", "{}").event_type,
    ] {
        assert!(EVENT_TYPES.contains(&event_type.as_str()));
    }
}

#[test]
fn timestamps_are_utc() {
    let now = now_iso8601();
    assert!(now.ends_with('Z'));
    assert!(now.contains('T'));
    let chars: Vec<char> = now.chars().collect();
    assert_eq!(chars.len(), 27);
    for (i, c) in chars.iter().enumerate() {
        match i {
            4 | 7 => assert_eq!(*c, '-'),
            10 => assert_eq!(*c, 'T'),
            13 | 16 => assert_eq!(*c, ':'),
            19 => assert_eq!(*c, '.'),
            26 => assert_eq!(*c, 'Z'),
            _ => assert!(c.is_ascii_digit()),
        }
    }
}

#[test]
fn partial_payload_carries_text_and_language() {
    let event = DomainEvent::asr_partial("u1", "speaker", "he said \"hi\"", Some("en"));
    assert_eq!(event.event_type, "asr.partial");
    assert_eq!(event.message_id, "u1");
    assert_eq!(event.source, "speaker");
    assert_eq!(event.payload, r#"{"language":"en","text":"he said \"hi\""}"#);
    let without = DomainEvent::asr_partial("u1", "speaker", "x", None);
    assert_eq!(without.payload, r#"{"language":null,"text":"x"}"#);
}

#[test]
fn a_failure_without_an_utterance_belongs_to_the_session() {
    let event = DomainEvent::asr_failed(None, "microphone", "asr.timeout", "no audio");
    assert_eq!(event.message_id, "session");
    assert_eq!(
        event.payload,
        r#"{"code":"asr.timeout","detail":"no audio","utterance_id":null}"#
    );
    let event = DomainEvent::asr_failed(Some("u7"), "microphone", "c", "d");
    assert_eq!(event.message_id, "u7");
    assert_eq!(event.payload, r#"{"code":"c","detail":"d","utterance_id":"u7"}"#);
}

#[test]
fn reset_and_control_events_have_fixed_ids_and_sources() {
    let reset = DomainEvent::asr_reset("speaker");
    assert_eq!(reset.message_id, "session");
    assert_eq!(reset.payload, "{}");
    let control = DomainEvent::control("hello", "conn-1", "{}".to_string());
    assert_eq!(control.source, "system");
    assert_eq!(control.message_id, "conn-1");
}

#[test]
fn final_payload_embeds_the_written_subtitle() {
    let subtitle = Subtitle {
        id: Some(-3),
        conversation_id: None,
        text: "line\nbreak".to_string(),
        language: None,
        source: "microphone".to_string(),
        created_at: "t".to_string(),
        translations: Vec::new(),
    };
    let event = DomainEvent::asr_final("u2", &subtitle, "{\"id\":-3}");
    assert_eq!(event.source, "microphone");
    assert_eq!(
        event.payload,
        r#"{"language":null,"subtitle":{"id":-3},"subtitle_id":-3,"text":"line\nbreak"}"#
    );
}

#[test]
fn translation_events_carry_the_subtitle_id() {
    let started = DomainEvent::translation_started("m", "speaker", 42, "ja");
    assert_eq!(started.payload, r#"{"subtitle_id":42,"target_language":"ja"}"#);
    let partial = DomainEvent::translation_partial("m", "speaker", 42, "こん", "ja");
    assert_eq!(
        partial.payload,
        r#"{"subtitle_id":42,"target_language":"ja","text":"こん"}"#
    );
    let completed = DomainEvent::translation_completed("m", "speaker", 42, "{\"text\":\"x\"}");
    assert_eq!(completed.payload, r#"{"subtitle_id":42,"translation":{"text":"x"}}"#);
    let failed = DomainEvent::translation_failed("m", "speaker", 42, "ja", "llm.error", "boom");
    assert_eq!(
        failed.payload,
        r#"{"code":"llm.error","detail":"boom","subtitle_id":42,"target_language":"ja"}"#
    );
}

#[test]
fn live_snapshots_belong_to_their_utterance() {
    let snapshot = LiveTranslation {
        utterance_id: "utt-9".to_string(),
        text: "a".to_string(),
        language: None,
        translation: "b".to_string(),
        target_language: "ja".to_string(),
    };
    let event = DomainEvent::live_translation("speaker", &snapshot, "{}".to_string());
    assert_eq!(event.event_type, "translation.live_updated");
    assert_eq!(event.message_id, "utt-9");
}

#[test]
fn chat_messages_come_from_the_chatbox() {
    let event = DomainEvent::chatbox_sent("m1", "{\"id\":1}");
    assert_eq!(event.source, "chatbox");
    assert_eq!(event.payload, r#"{"message":{"id":1}}"#);
}
