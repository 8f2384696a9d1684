use vrcs_core::config::{VrOverlayHeadsetConfig, VrOverlayWristConfig};
use vrcs_core::models::{LiveTranslation, Subtitle, SubtitleTranslation, TranslationSourceGroup};
use vrcs_core::presentation::{
    display_text, item_from_subtitle, same_translation_language, update_completed_translation,
    HeadsetPresentation, MessageSide, PresentationEvent, WristMessage, WristPresentation,
};

const DISPLAY_MS: u64 = 5_000;

fn subtitle(id: i64, text: &str) -> Subtitle {
    Subtitle {
        id: Some(id),
        conversation_id: None,
        text: text.into(),
        language: Some("en".into()),
        source: "speaker".into(),
        created_at: "2026-01-01T00:00:00Z".into(),
        translations: Vec::new(),
    }
}

fn final_event(subtitle: Subtitle) -> PresentationEvent {
    PresentationEvent::Final {
        utterance_id: None,
        subtitle,
    }
}

fn partial_event(utterance_id: &str, source: &str, text: &str) -> PresentationEvent {
    PresentationEvent::RecognitionPartial {
        utterance_id: utterance_id.into(),
        source: source.into(),
        text: text.into(),
        language: Some("en".into()),
    }
}

fn translation(text: &str) -> SubtitleTranslation {
    translation_in("zh", text)
}

fn translation_in(target_language: &str, text: &str) -> SubtitleTranslation {
    SubtitleTranslation {
        source_group: None,
        text: text.into(),
        source_language: Some("en".into()),
        target_language: target_language.into(),
        provider: "test".into(),
        model: None,
        created_at: "2026-01-01T00:00:00Z".into(),
    }
}

fn headset_text(state: &HeadsetPresentation, config: &VrOverlayHeadsetConfig, display: &str) -> Option<String> {
    state.frame_content(config, display).map(|(text, _)| text)
}

fn wrist_texts(state: &WristPresentation, now: u64, config: &VrOverlayWristConfig) -> Vec<String> {
    state
        .frame_messages(now, config, "all_languages")
        .unwrap_or_default()
        .into_iter()
        .map(|message| message.text)
        .collect()
}

#[test]
fn headset_final_expires_after_the_display_time() {
    let config = VrOverlayHeadsetConfig::default();
    let mut state = HeadsetPresentation::new();
    state.apply(final_event(subtitle(7, "hello")), 1_000, &config, 2_000);
    assert_eq!(
        state.frame_content(&config, "all_languages"),
        Some(("hello".to_string(), 3_000))
    );
}

#[test]
fn translation_completion_updates_matching_headset_item() {
    let config = VrOverlayHeadsetConfig {
        content_mode: "bilingual".into(),
        ..Default::default()
    };
    let mut state = HeadsetPresentation::new();
    state.apply(final_event(subtitle(7, "hello")), 0, &config, DISPLAY_MS);
    state.apply(
        PresentationEvent::TranslationCompleted {
            subtitle_id: 7,
            translation: translation("你好"),
            preferred: true,
        },
        1_000,
        &config,
        DISPLAY_MS,
    );
    assert_eq!(
        state.frame_content(&config, "all_languages"),
        Some(("hello\n你好".to_string(), 6_000))
    );
}

#[test]
fn multilingual_translation_display_can_show_preferred_or_all_languages() {
    let headset_config = VrOverlayHeadsetConfig {
        content_mode: "bilingual".into(),
        ..Default::default()
    };
    let wrist_config = VrOverlayWristConfig {
        content_mode: "translation".into(),
        ..Default::default()
    };
    let events = [
        PresentationEvent::TranslationCompleted {
            subtitle_id: 7,
            translation: translation_in("zh", "你好"),
            preferred: true,
        },
        PresentationEvent::TranslationCompleted {
            subtitle_id: 7,
            translation: translation_in("ja", "こんにちは"),
            preferred: false,
        },
    ];
    let mut headset = HeadsetPresentation::new();
    let mut wrist = WristPresentation::new();
    headset.apply(final_event(subtitle(7, "hello")), 0, &headset_config, DISPLAY_MS);
    wrist.apply(final_event(subtitle(7, "hello")), 0, &wrist_config);
    for event in events {
        headset.apply(event.clone(), 0, &headset_config, DISPLAY_MS);
        wrist.apply(event, 0, &wrist_config);
    }
    assert_eq!(
        headset_text(&headset, &headset_config, "preferred_only").unwrap(),
        "hello\n你好"
    );
    assert_eq!(
        headset_text(&headset, &headset_config, "all_languages").unwrap(),
        "hello\n你好\nこんにちは"
    );
    assert_eq!(
        wrist.frame_messages(0, &wrist_config, "preferred_only").unwrap(),
        vec![WristMessage {
            text: "你好".into(),
            side: MessageSide::Left,
        }]
    );
    assert_eq!(
        wrist.frame_messages(0, &wrist_config, "all_languages").unwrap(),
        vec![WristMessage {
            text: "你好\nこんにちは".into(),
            side: MessageSide::Left,
        }]
    );
}

#[test]
fn interleaved_wrist_translation_partials_keep_each_language_current() {
    let config = VrOverlayWristConfig {
        content_mode: "translation".into(),
        show_translation_partials: true,
        idle_hide_seconds: 3,
        ..Default::default()
    };
    let mut wrist = WristPresentation::new();
    wrist.apply(final_event(subtitle(7, "hello")), 0, &config);
    for (target_language, text, preferred, elapsed) in [
        ("zh", "你", true, 1),
        ("ja", "こん", false, 2),
        ("zh", "你好", true, 3),
        ("ja", "こんにちは", false, 4),
    ] {
        wrist.apply(
            PresentationEvent::TranslationPartial {
                subtitle_id: 7,
                text: text.into(),
                target_language: target_language.into(),
                preferred,
            },
            elapsed * 1_000,
            &config,
        );
    }
    assert_eq!(wrist_texts(&wrist, 6_000, &config), vec!["你好\nこんにちは"]);
    assert!(wrist.frame_messages(7_000, &config, "all_languages").is_none());
}

#[test]
fn later_non_preferred_update_preserves_preferred_translation() {
    let config = VrOverlayHeadsetConfig {
        content_mode: "translation".into(),
        ..Default::default()
    };
    let mut headset = HeadsetPresentation::new();
    headset.apply(final_event(subtitle(7, "hello")), 0, &config, DISPLAY_MS);
    for (text, preferred) in [("你", true), ("你好", false)] {
        headset.apply(
            PresentationEvent::TranslationCompleted {
                subtitle_id: 7,
                translation: translation(text),
                preferred,
            },
            0,
            &config,
            DISPLAY_MS,
        );
    }
    assert_eq!(headset_text(&headset, &config, "preferred_only").unwrap(), "你好");
}

#[test]
fn same_language_translation_is_hidden() {
    let mut translation = translation("hello");
    translation.source_language = None;
    translation.target_language = "en".into();

    let headset_config = VrOverlayHeadsetConfig {
        content_mode: "bilingual".into(),
        ..Default::default()
    };
    let mut headset = HeadsetPresentation::new();
    headset.apply(final_event(subtitle(7, "hello")), 0, &headset_config, DISPLAY_MS);
    headset.apply(
        PresentationEvent::TranslationCompleted {
            subtitle_id: 7,
            translation: translation.clone(),
            preferred: true,
        },
        0,
        &headset_config,
        DISPLAY_MS,
    );
    assert_eq!(headset_text(&headset, &headset_config, "all_languages").unwrap(), "hello");

    let wrist_config = VrOverlayWristConfig {
        content_mode: "bilingual".into(),
        ..Default::default()
    };
    let mut item = subtitle(7, "hello");
    item.translations.push(translation);
    let mut wrist = WristPresentation::new();
    wrist.apply(final_event(item), 0, &wrist_config);
    assert_eq!(
        wrist.frame_messages(0, &wrist_config, "all_languages").unwrap(),
        vec![WristMessage {
            text: "hello".into(),
            side: MessageSide::Left,
        }]
    );
    assert!(same_translation_language("EN-us", "en"));
    assert!(!same_translation_language("zh", "ja"));
}

#[test]
fn wrist_keeps_only_configured_recent_finals() {
    let config = VrOverlayWristConfig {
        max_entries: 3,
        ..Default::default()
    };
    let mut state = WristPresentation::new();
    for id in 1..=5 {
        state.apply(final_event(subtitle(id, &format!("line{id}"))), 0, &config);
    }
    assert_eq!(wrist_texts(&state, 0, &config), vec!["line3", "line4", "line5"]);
    assert_eq!(state.entry_count(), 3);
}

#[test]
fn wrist_trims_existing_history_when_limit_changes() {
    let mut config = VrOverlayWristConfig {
        max_entries: 5,
        ..Default::default()
    };
    let mut state = WristPresentation::new();
    for id in 1..=5 {
        state.apply(final_event(subtitle(id, &format!("line{id}"))), 0, &config);
    }
    config.max_entries = 3;
    state.set_max_entries(config.max_entries);
    assert_eq!(wrist_texts(&state, 0, &config), vec!["line3", "line4", "line5"]);
    state.set_max_entries(0);
    assert_eq!(state.entry_count(), 3);
}

#[test]
fn wrist_places_remote_left_and_local_sources_right() {
    let config = VrOverlayWristConfig {
        include_microphone: true,
        include_chatbox: true,
        ..Default::default()
    };
    let mut state = WristPresentation::new();
    for (id, source) in [(1, "speaker"), (2, "microphone"), (3, "chatbox")] {
        let mut item = subtitle(id, source);
        item.source = source.into();
        state.apply(final_event(item), 0, &config);
    }
    let messages = state.frame_messages(0, &config, "all_languages").unwrap();
    assert_eq!(messages[0].side, MessageSide::Left);
    assert_eq!(messages[1].side, MessageSide::Right);
    assert_eq!(messages[2].side, MessageSide::Right);
}

#[test]
fn recognition_partials_are_visible_only_when_enabled() {
    let mut headset_config = VrOverlayHeadsetConfig::default();
    let mut headset = HeadsetPresentation::new();
    headset.apply(partial_event("u1", "speaker", "hel"), 0, &headset_config, DISPLAY_MS);
    assert!(headset.frame_content(&headset_config, "all_languages").is_none());

    headset_config.show_partials = true;
    headset.apply(partial_event("u1", "speaker", "hello"), 0, &headset_config, DISPLAY_MS);
    assert_eq!(headset_text(&headset, &headset_config, "all_languages").unwrap(), "hello");

    let wrist_config = VrOverlayWristConfig {
        show_partials: true,
        ..Default::default()
    };
    let mut wrist = WristPresentation::new();
    wrist.apply(partial_event("u1", "speaker", "hello"), 0, &wrist_config);
    assert_eq!(wrist_texts(&wrist, 0, &wrist_config), vec!["hello"]);
}

#[test]
fn headset_final_replaces_partial_and_blocks_late_updates() {
    let config = VrOverlayHeadsetConfig {
        show_partials: true,
        ..Default::default()
    };
    let mut state = HeadsetPresentation::new();
    state.apply(partial_event("u1", "speaker", "partial"), 0, &config, DISPLAY_MS);
    state.apply(
        PresentationEvent::Final {
            utterance_id: Some("u1".into()),
            subtitle: subtitle(1, "final"),
        },
        0,
        &config,
        DISPLAY_MS,
    );
    state.apply(partial_event("u1", "speaker", "late partial"), 0, &config, DISPLAY_MS);
    assert_eq!(headset_text(&state, &config, "all_languages").unwrap(), "final");
}

#[test]
fn disabling_partials_discards_hidden_state() {
    let mut config = VrOverlayWristConfig {
        show_partials: true,
        ..Default::default()
    };
    let mut state = WristPresentation::new();
    state.apply(partial_event("u1", "speaker", "partial"), 0, &config);
    state.set_show_partials(false);
    config.show_partials = true;
    assert!(state.frame_messages(0, &config, "all_languages").is_none());
}

#[test]
fn final_replaces_matching_wrist_partial_without_clearing_newer_utterance() {
    let config = VrOverlayWristConfig {
        show_partials: true,
        include_microphone: true,
        ..Default::default()
    };
    let mut state = WristPresentation::new();
    state.apply(partial_event("u1", "speaker", "old partial"), 0, &config);
    state.apply(partial_event("u2", "microphone", "new partial"), 0, &config);
    let mut final_subtitle = subtitle(1, "old final");
    final_subtitle.source = "speaker".into();
    state.apply(
        PresentationEvent::Final {
            utterance_id: Some("u1".into()),
            subtitle: final_subtitle,
        },
        0,
        &config,
    );
    state.apply(partial_event("u1", "speaker", "late partial"), 0, &config);
    assert_eq!(wrist_texts(&state, 0, &config), vec!["old final", "new partial"]);
}

#[test]
fn terminated_wrist_partial_cannot_reappear() {
    let config = VrOverlayWristConfig {
        show_partials: true,
        ..Default::default()
    };
    let mut state = WristPresentation::new();
    state.apply(partial_event("u1", "speaker", "partial"), 0, &config);
    state.apply(
        PresentationEvent::RecognitionCancelled {
            utterance_id: "u1".into(),
            source: "speaker".into(),
        },
        0,
        &config,
    );
    state.apply(partial_event("u1", "speaker", "late partial"), 0, &config);
    assert!(state.frame_messages(0, &config, "all_languages").is_none());
}

#[test]
fn recognition_reset_allows_reused_utterance_ids() {
    let config = VrOverlayWristConfig {
        show_partials: true,
        ..Default::default()
    };
    let mut state = WristPresentation::new();
    state.apply(
        PresentationEvent::RecognitionCancelled {
            utterance_id: "u1".into(),
            source: "speaker".into(),
        },
        0,
        &config,
    );
    state.apply(
        PresentationEvent::RecognitionReset {
            source: "speaker".into(),
        },
        0,
        &config,
    );
    state.apply(partial_event("u1", "speaker", "new session"), 0, &config);
    assert_eq!(wrist_texts(&state, 0, &config), vec!["new session"]);
}

#[test]
fn recognition_reset_clears_only_matching_wrist_source() {
    let config = VrOverlayWristConfig {
        show_partials: true,
        include_microphone: true,
        ..Default::default()
    };
    let mut state = WristPresentation::new();
    state.apply(partial_event("u1", "speaker", "remote"), 0, &config);
    state.apply(partial_event("u2", "microphone", "local"), 0, &config);
    state.apply(
        PresentationEvent::RecognitionReset {
            source: "speaker".into(),
        },
        0,
        &config,
    );
    assert_eq!(
        state.frame_messages(0, &config, "all_languages").unwrap(),
        vec![WristMessage {
            text: "local".into(),
            side: MessageSide::Right,
        }]
    );
}

#[test]
fn disabled_or_unknown_sources_are_not_presented() {
    let config = VrOverlayHeadsetConfig::default();
    let mut state = HeadsetPresentation::new();
    let mut item = subtitle(1, "private");
    item.source = "microphone".into();
    state.apply(final_event(item), 0, &config, DISPLAY_MS);
    assert!(state.frame_content(&config, "all_languages").is_none());
}

#[test]
fn native_translation_can_arrive_before_the_original() {
    let snapshot = LiveTranslation {
        utterance_id: "native-1".into(),
        text: String::new(),
        language: None,
        translation: "hello".into(),
        target_language: "en".into(),
    };
    let event = PresentationEvent::LiveTranslationUpdated {
        source: "speaker".into(),
        snapshot,
    };
    let config = VrOverlayHeadsetConfig {
        show_partials: true,
        show_translation_partials: true,
        content_mode: "bilingual".into(),
        ..Default::default()
    };
    let mut headset = HeadsetPresentation::new();
    headset.apply(event.clone(), 0, &config, DISPLAY_MS);
    assert!(headset
        .partial()
        .is_some_and(|item| item.original.is_empty() && item.translations[0].text == "hello"));
    headset.apply(
        PresentationEvent::RecognitionCancelled {
            source: "speaker".into(),
            utterance_id: "native-1".into(),
        },
        0,
        &config,
        DISPLAY_MS,
    );
    headset.apply(event.clone(), 0, &config, DISPLAY_MS);
    assert!(headset.partial().is_none());
    let mut wrist = WristPresentation::new();
    let wrist_config = VrOverlayWristConfig {
        show_partials: true,
        show_translation_partials: false,
        ..Default::default()
    };
    wrist.apply(event, 0, &wrist_config);
    assert!(wrist.partials()[0].translations.is_empty());
}

#[test]
fn shared_translation_uses_group_context_only_on_the_last_sentence() {
    let mut first = item_from_subtitle(subtitle(1, "Hello."), None, 0);
    let mut last = item_from_subtitle(subtitle(2, "How are you?"), None, 0);
    let mut translated = translation("你好，最近怎么样？");
    translated.source_group = Some(TranslationSourceGroup {
        subtitle_ids: vec![1, 2],
        text: "Hello. How are you?".into(),
    });
    assert!(!update_completed_translation(&mut first, translated.clone(), true));
    assert!(update_completed_translation(&mut last, translated, true));
    assert_eq!(display_text(&first, "bilingual", "preferred_only", "\n"), "Hello.");
    assert_eq!(
        display_text(&last, "bilingual", "preferred_only", "\n"),
        "Hello. How are you?\n你好，最近怎么样？"
    );
    assert_eq!(display_text(&last, "original", "preferred_only", "\n"), "How are you?");
}

#[test]
fn wrist_keeps_one_partial_per_source_and_bounds_entries() {
    let config = VrOverlayWristConfig {
        show_partials: true,
        max_entries: 3,
        ..Default::default()
    };
    let mut state = WristPresentation::new();
    state.apply(partial_event("u1", "speaker", "first"), 0, &config);
    state.apply(partial_event("u2", "speaker", "second"), 0, &config);
    assert_eq!(wrist_texts(&state, 0, &config), vec!["second"]);
    for id in 1..=5 {
        state.apply(final_event(subtitle(id, &format!("final {id}"))), 0, &config);
    }
    assert_eq!(wrist_texts(&state, 0, &config), vec!["final 4", "final 5", "second"]);
}
