use vrcs_core::config::AsrConfig;
use vrcs_core::live_translation::{
    append, append_timed, finish, poll, State, END_MARK_DELAY_MS, MAX_TRANSCRIPT_BYTES,
    SOURCE_IDLE_DELAY_MS, TRANSCRIPT_LIMIT_MESSAGE,
};
use vrcs_core::providers::{SERVICE_GEMINI_LIVE_TRANSLATE, SERVICE_OPENAI_REALTIME_TRANSLATE};
use vrcs_core::streaming::CloudEvent;

/// The clock of every step in these tests, in milliseconds.
const NOW: u64 = 100_000;

fn config() -> AsrConfig {
    AsrConfig {
        backend: SERVICE_OPENAI_REALTIME_TRANSLATE.into(),
        live_translation_target: Some("zh-Hans".into()),
        ..Default::default()
    }
}

#[test]
fn translated_sentences_are_published_before_the_rest_of_the_stream_finishes() {
    let mut state = State::default();
    append(&config(), &mut state, "Hello. How are you? More", "", None, NOW).unwrap();
    let Some(CloudEvent::LiveTranslation { translations, .. }) =
        append(&config(), &mut state, "", "你好。最近怎么样？还有", None, NOW).unwrap()
    else {
        panic!("complete translated sentences must not wait for global silence");
    };
    assert_eq!(translations.len(), 2);
    assert_eq!(translations[0].transcript.text, "Hello.");
    assert_eq!(translations[0].transcript.translation, "你好。");
    assert_eq!(translations[1].transcript.text, "How are you?");
    assert_eq!(translations[1].transcript.translation, "最近怎么样？");
    assert!(translations.iter().all(|update| !update.pending));
}

#[test]
fn each_stream_uses_its_own_end_mark_timer() {
    for backend in [SERVICE_OPENAI_REALTIME_TRANSLATE, SERVICE_GEMINI_LIVE_TRANSLATE] {
        let config = AsrConfig {
            backend: backend.into(),
            ..config()
        };
        let mut state = State::default();
        append(&config, &mut state, "Hello.", "你好。", None, NOW).unwrap();
        state.last_input = Some(NOW - END_MARK_DELAY_MS);
        let Some(CloudEvent::LiveTranslation {
            completed,
            translations,
            ..
        }) = poll(&config, &mut state, NOW)
        else {
            panic!()
        };
        assert_eq!(completed[0].transcript.text, "Hello.");
        assert!(translations[0].pending);
        let id = completed[0].transcript.utterance_id.clone();
        state.last_output = Some(NOW - END_MARK_DELAY_MS);
        let Some(CloudEvent::LiveTranslation { translations, .. }) = poll(&config, &mut state, NOW)
        else {
            panic!()
        };
        assert_eq!(translations[0].transcript.utterance_id, id);
        assert!(!translations[0].pending);
    }
}

#[test]
fn late_translation_streams_into_the_saved_sentence_without_waiting_for_punctuation() {
    let mut state = State::default();
    let Some(CloudEvent::LiveTranslation { completed, .. }) =
        append(&config(), &mut state, "Hello. Next", "", None, NOW).unwrap()
    else {
        panic!()
    };
    let id = completed[0].transcript.utterance_id.clone();
    let Some(CloudEvent::LiveTranslation { translations, .. }) =
        append(&config(), &mut state, "", "你", None, NOW).unwrap()
    else {
        panic!()
    };
    assert_eq!(translations[0].transcript.utterance_id, id);
    assert_eq!(translations[0].transcript.translation, "你");
    assert!(translations[0].pending);
    assert!(poll(&config(), &mut state, NOW).is_none());
}

#[test]
fn target_can_finish_before_source_and_repetitions_are_not_deduplicated() {
    let mut state = State::default();
    append(&config(), &mut state, "", "你好。你好。", None, NOW).unwrap();
    state.last_output = Some(NOW - END_MARK_DELAY_MS);
    poll(&config(), &mut state, NOW);
    let Some(CloudEvent::LiveTranslation { translations, .. }) =
        append(&config(), &mut state, "Hello. Hello. Tail", "", None, NOW).unwrap()
    else {
        panic!()
    };
    assert_eq!(translations.len(), 2);
    assert_ne!(
        translations[0].transcript.utterance_id,
        translations[1].transcript.utterance_id
    );
    assert!(translations
        .iter()
        .all(|update| update.transcript.translation == "你好。"));
}

#[test]
fn stop_preserves_extra_target_sentences_and_reports_untranslated_sources() {
    let mut state = State::default();
    append(&config(), &mut state, "Hello.", "你好。还好吗？", None, NOW).unwrap();
    let Some(CloudEvent::LiveTranslation {
        completed,
        translations,
        ..
    }) = finish(&config(), &mut state, NOW)
    else {
        panic!()
    };
    assert_eq!(completed.len(), 1);
    assert_eq!(translations.len(), 1);
    assert_eq!(translations[0].transcript.translation, "你好。 还好吗？");
    assert!(finish(&config(), &mut state, NOW).is_none());
    append(&config(), &mut state, "No translation. Tail", "", None, NOW).unwrap();
    let Some(CloudEvent::LiveTranslation { translations, .. }) = finish(&config(), &mut state, NOW)
    else {
        panic!()
    };
    assert_eq!(translations.len(), 2);
    assert!(translations
        .iter()
        .all(|update| update.transcript.translation.is_empty()));
}

#[test]
fn continuous_source_finalizes_without_translation_or_global_silence() {
    let mut state = State::default();
    let mut originals = Vec::new();
    for text in ["Hello?", " Next!", " Value 3.", "14?", " Last sentence"] {
        if let Some(CloudEvent::LiveTranslation { completed, .. }) =
            append(&config(), &mut state, text, "", None, NOW).unwrap()
        {
            originals.extend(completed);
        }
    }
    assert_eq!(
        originals
            .iter()
            .map(|r| r.transcript.text.as_str())
            .collect::<Vec<_>>(),
        ["Hello?", "Next!", "Value 3.14?"]
    );
    assert!(originals.iter().all(|r| r.pending));
}

#[test]
fn idle_flushes_each_unpunctuated_stream_independently() {
    let mut state = State::default();
    append(&config(), &mut state, "unfinished words", "未完", None, NOW).unwrap();
    state.last_input = Some(NOW - SOURCE_IDLE_DELAY_MS);
    let Some(CloudEvent::LiveTranslation {
        completed,
        translations,
        ..
    }) = poll(&config(), &mut state, NOW)
    else {
        panic!()
    };
    assert_eq!(completed[0].transcript.text, "unfinished words");
    assert!(translations[0].pending);
    state.last_output = Some(NOW - SOURCE_IDLE_DELAY_MS);
    let Some(CloudEvent::LiveTranslation { translations, .. }) = poll(&config(), &mut state, NOW)
    else {
        panic!()
    };
    assert!(!translations[0].pending);
    assert_eq!(translations[0].transcript.translation, "未完");
}

#[test]
fn target_deltas_preview_on_source_rows_before_the_window_settles() {
    let config = config();
    let mut state = State::default();
    let Some(CloudEvent::LiveTranslation { completed, .. }) =
        append_timed(&config, &mut state, "First. Second", "", NOW).unwrap()
    else {
        panic!()
    };
    assert_eq!(completed.len(), 1);

    let Some(CloudEvent::LiveTranslation { translations, .. }) =
        append_timed(&config, &mut state, "", "第一句。第二", NOW).unwrap()
    else {
        panic!()
    };
    assert_eq!(translations.len(), 1);
    assert!(translations.iter().all(|update| update.pending));
    for (source, preview) in completed.iter().zip(&translations) {
        assert_eq!(
            source.transcript.utterance_id,
            preview.transcript.utterance_id
        );
    }
    assert_eq!(translations[0].transcript.translation, "第一句。");
}

#[test]
fn live_snapshot_excludes_translation_already_shown_on_source_rows() {
    let config = config();
    let mut state = State::default();
    append_timed(&config, &mut state, "First. Second", "", NOW).unwrap();

    let Some(CloudEvent::LiveTranslation {
        translations,
        snapshot,
        ..
    }) = append_timed(&config, &mut state, "", "第一句。第二句。第三", NOW).unwrap()
    else {
        panic!()
    };
    assert_eq!(translations.len(), 1);
    assert_eq!(translations[0].transcript.translation, "第一句。");
    assert_eq!(snapshot.text, "Second");
    assert_eq!(snapshot.translation, "第二句。 第三");
}

#[test]
fn merged_target_does_not_shift_the_next_translation_to_the_wrong_source() {
    let config = config();
    let mut state = State::default();
    append_timed(&config, &mut state, "First. Second. Third", "", NOW).unwrap();

    let Some(CloudEvent::LiveTranslation {
        translations,
        snapshot,
        ..
    }) = append_timed(&config, &mut state, "", "第一句和第二句。第三", NOW).unwrap()
    else {
        panic!()
    };

    assert!(translations.is_empty());
    assert_eq!(snapshot.text, "Third");
    assert_eq!(snapshot.translation, "第一句和第二句。 第三");
}

#[test]
fn an_existing_row_preview_is_cleared_when_the_window_becomes_ambiguous() {
    let config = config();
    let mut state = State::default();
    append_timed(&config, &mut state, "First.", "", NOW).unwrap();
    state.last_input = Some(NOW - END_MARK_DELAY_MS);
    poll(&config, &mut state, NOW).unwrap();
    append_timed(&config, &mut state, "", "第一", NOW).unwrap();

    let Some(CloudEvent::LiveTranslation {
        translations,
        snapshot,
        ..
    }) = append_timed(&config, &mut state, " Second. Third", "", NOW).unwrap()
    else {
        panic!()
    };

    assert_eq!(translations.len(), 1);
    assert!(translations[0].pending);
    assert!(translations[0].transcript.translation.is_empty());
    assert_eq!(snapshot.translation, "第一");
}

#[test]
fn completed_targets_wait_for_a_stable_window() {
    let config = config();
    let mut state = State::default();
    let Some(CloudEvent::LiveTranslation {
        completed: mut sources,
        ..
    }) = append_timed(&config, &mut state, "First. Second.", "", NOW).unwrap()
    else {
        panic!()
    };
    assert_eq!(sources.len(), 1);
    let Some(CloudEvent::LiveTranslation {
        translations,
        snapshot,
        ..
    }) = append_timed(&config, &mut state, "", "第一句。第二", NOW).unwrap()
    else {
        panic!()
    };
    assert_eq!(translations.len(), 1);
    assert!(translations[0].pending);
    assert_eq!(translations[0].transcript.translation, "第一句。");
    assert_eq!(snapshot.translation, "第二");
    assert_eq!(snapshot.text, "Second.");

    append_timed(&config, &mut state, "", "句。", NOW).unwrap();
    state.last_input = Some(NOW - SOURCE_IDLE_DELAY_MS);
    state.last_output = Some(NOW - SOURCE_IDLE_DELAY_MS);
    let Some(CloudEvent::LiveTranslation {
        completed,
        translations,
        ..
    }) = poll(&config, &mut state, NOW)
    else {
        panic!()
    };
    sources.extend(completed);
    assert_eq!(sources.len(), 2);
    assert_eq!(translations.len(), 2);
    for (source, target) in sources.iter().zip(&translations) {
        assert_eq!(
            source.transcript.utterance_id,
            target.transcript.utterance_id
        );
        assert!(!target.pending);
    }
    assert_eq!(translations[0].transcript.translation, "第一句。");
    assert_eq!(translations[1].transcript.translation, "第二句。");
}

#[test]
fn split_target_is_kept_with_its_source_window() {
    let config = config();
    let mut state = State::default();
    append_timed(&config, &mut state, "First. Second.", "", NOW).unwrap();
    append_timed(&config, &mut state, "", "第一句。补充一句。第二句。", NOW).unwrap();
    state.last_input = Some(NOW - SOURCE_IDLE_DELAY_MS);
    state.last_output = Some(NOW - SOURCE_IDLE_DELAY_MS);
    let Some(CloudEvent::LiveTranslation { translations, .. }) = poll(&config, &mut state, NOW)
    else {
        panic!()
    };
    assert_eq!(translations.len(), 1);
    assert_eq!(translations[0].transcript.text, "First. Second.");
    assert_eq!(
        translations[0].transcript.translation,
        "第一句。 补充一句。 第二句。"
    );
}

#[test]
fn merged_target_is_kept_with_its_source_window() {
    let config = config();
    let mut state = State::default();
    append_timed(&config, &mut state, "First. Second.", "", NOW).unwrap();
    append_timed(&config, &mut state, "", "第一句和第二句。", NOW).unwrap();
    state.last_input = Some(NOW - SOURCE_IDLE_DELAY_MS);
    state.last_output = Some(NOW - SOURCE_IDLE_DELAY_MS);
    let Some(CloudEvent::LiveTranslation { translations, .. }) = poll(&config, &mut state, NOW)
    else {
        panic!()
    };
    assert_eq!(translations.len(), 1);
    assert_eq!(translations[0].transcript.text, "First. Second.");
    assert_eq!(translations[0].transcript.translation, "第一句和第二句。");
}

#[test]
fn complete_sentences_can_share_a_frame_without_losing_their_translation() {
    let config = config();
    let mut state = State::default();
    append_timed(&config, &mut state, "Yes. Yes.", "", NOW).unwrap();
    let Some(CloudEvent::LiveTranslation {
        mut translations, ..
    }) = append_timed(&config, &mut state, "", "是。是。", NOW).unwrap()
    else {
        panic!()
    };
    let Some(CloudEvent::LiveTranslation {
        translations: tail, ..
    }) = finish(&config, &mut state, NOW)
    else {
        panic!()
    };
    translations.extend(tail);
    translations.retain(|update| !update.pending);
    assert_eq!(translations.len(), 2);
    assert!(translations
        .iter()
        .all(|t| t.transcript.translation == "是。"));
    assert_ne!(
        translations[0].transcript.utterance_id,
        translations[1].transcript.utterance_id
    );
}

#[test]
fn an_unfinished_target_stays_in_preview_when_another_source_starts() {
    let config = config();
    let mut state = State::default();
    append_timed(&config, &mut state, "First.", "", NOW).unwrap();
    state.last_input = Some(NOW - END_MARK_DELAY_MS);
    let Some(CloudEvent::LiveTranslation { completed, .. }) = poll(&config, &mut state, NOW) else {
        panic!()
    };
    let id = completed[0].transcript.utterance_id.clone();
    let Some(CloudEvent::LiveTranslation {
        snapshot,
        translations,
        ..
    }) = append_timed(&config, &mut state, "", "第一", NOW).unwrap()
    else {
        panic!()
    };
    assert_eq!(translations.len(), 1);
    assert!(translations[0].pending);
    assert_eq!(translations[0].transcript.utterance_id, id);
    assert_eq!(translations[0].transcript.translation, "第一");
    assert!(snapshot.translation.is_empty());

    let Some(CloudEvent::LiveTranslation {
        snapshot,
        translations,
        ..
    }) = append_timed(&config, &mut state, " Second.", "", NOW).unwrap()
    else {
        panic!()
    };
    assert!(snapshot.translation.is_empty());
    assert!(translations.is_empty());

    let Some(CloudEvent::LiveTranslation {
        snapshot,
        translations,
        ..
    }) = append_timed(&config, &mut state, "", "句。", NOW).unwrap()
    else {
        panic!()
    };
    assert!(snapshot.translation.is_empty());
    assert_eq!(translations.len(), 1);
    assert!(translations[0].pending);
    assert_eq!(translations[0].transcript.translation, "第一句。");

    let Some(CloudEvent::LiveTranslation {
        translations,
        snapshot,
        ..
    }) = append_timed(&config, &mut state, "", "第二句。", NOW).unwrap()
    else {
        panic!()
    };
    assert!(translations.is_empty());
    assert_eq!(snapshot.translation, "第二句。");
    state.last_input = Some(NOW - SOURCE_IDLE_DELAY_MS);
    state.last_output = Some(NOW - SOURCE_IDLE_DELAY_MS);
    let Some(CloudEvent::LiveTranslation {
        translations: tail, ..
    }) = poll(&config, &mut state, NOW)
    else {
        panic!()
    };
    assert_eq!(tail.len(), 2);
    assert!(tail.iter().all(|update| !update.pending));
    assert_eq!(tail[0].transcript.utterance_id, id);
    assert_eq!(tail[0].transcript.translation, "第一句。");
    assert_eq!(tail[1].transcript.translation, "第二句。");
}

#[test]
fn source_ids_are_prefixed_random_uuids() {
    let mut state = State::default();
    let Some(CloudEvent::LiveTranslation { completed, snapshot, .. }) =
        append(&config(), &mut state, "One. Two. Three", "", None, NOW).unwrap()
    else {
        panic!()
    };
    assert_eq!(completed.len(), 2);
    for c in &completed {
        assert!(c.transcript.utterance_id.starts_with("live-source-"));
        assert_eq!(c.transcript.utterance_id.len(), "live-source-".len() + 36);
        assert_eq!(c.source_utterance_ids, vec![c.transcript.utterance_id.clone()]);
        assert_eq!(c.provider, "openai");
        assert_eq!(c.model, "gpt-realtime-translate");
        assert_eq!(c.transcript.target_language, "zh-Hans");
    }
    assert_ne!(
        completed[0].transcript.utterance_id,
        completed[1].transcript.utterance_id
    );
    assert!(snapshot.utterance_id.starts_with("live-"));
    assert_eq!(snapshot.text, "Three");
}

#[test]
fn empty_deltas_change_nothing() {
    let mut state = State::default();
    assert!(append(&config(), &mut state, "", "", Some("en"), NOW)
        .unwrap()
        .is_none());
    assert!(state.snapshot.is_none());
    assert!(state.language.is_none());
    assert!(append_timed(&config(), &mut state, "", "", NOW).unwrap().is_none());
    assert!(state.timing.is_none());
    assert!(poll(&config(), &mut state, NOW).is_none());
}

#[test]
fn streams_past_the_byte_limit_are_refused() {
    let mut state = State::default();
    let long = "a".repeat(MAX_TRANSCRIPT_BYTES + 1);
    let error = append(&config(), &mut state, &long, "", None, NOW).unwrap_err();
    assert_eq!(error, TRANSCRIPT_LIMIT_MESSAGE);
    assert!(state.snapshot.is_none());
    let error = append(&config(), &mut state, "", &long, None, NOW).unwrap_err();
    assert_eq!(error, TRANSCRIPT_LIMIT_MESSAGE);
    let exact = "a".repeat(MAX_TRANSCRIPT_BYTES);
    assert!(append(&config(), &mut state, &exact, "", None, NOW).is_ok());
    assert!(append(&config(), &mut state, "b", "", None, NOW).is_err());
}

#[test]
fn echoed_speech_is_not_held_for_a_translation() {
    let config = AsrConfig {
        backend: SERVICE_GEMINI_LIVE_TRANSLATE.into(),
        live_translation_target: Some("zh-Hant".into()),
        ..Default::default()
    };
    let mut state = State::default();
    let Some(CloudEvent::LiveTranslation { completed, .. }) =
        append(&config, &mut state, "你好。 再见", "你好。", Some("zh-CN"), NOW).unwrap()
    else {
        panic!()
    };
    assert_eq!(completed.len(), 1);
    assert!(!completed[0].pending);
    assert!(state.sources.is_empty());
    assert_eq!(state.language.as_deref(), Some("zh-CN"));
    assert_eq!(state.snapshot.as_ref().unwrap().language.as_deref(), Some("zh-CN"));
}

#[test]
fn finish_resets_the_session() {
    let mut state = State::default();
    append_timed(&config(), &mut state, "Hello", "你好", NOW).unwrap();
    let Some(CloudEvent::LiveTranslation {
        completed,
        translations,
        snapshot,
    }) = finish(&config(), &mut state, NOW)
    else {
        panic!()
    };
    assert_eq!(completed.len(), 1);
    assert_eq!(translations.len(), 1);
    assert_eq!(translations[0].transcript.text, "Hello");
    assert_eq!(translations[0].transcript.translation, "你好");
    assert!(snapshot.text.is_empty() && snapshot.translation.is_empty());
    assert!(state.snapshot.is_none() && state.timing.is_none());
    assert!(state.input.is_empty() && state.output.is_empty());
}
