use vrcs_core::normalization::{
    NormalizationState, MAX_ACTIVE_TRANSCRIPTS, MAX_TRANSCRIPT_BYTES, TOO_MANY_TRANSCRIPTS,
    TRANSCRIPT_TOO_LONG,
};

#[test]
fn unnamed_deltas_and_their_final_share_one_fallback_id() {
    let mut state = NormalizationState::new();
    let first = state.delta_id(None);
    assert!(first.starts_with("local-utterance-"));
    assert_eq!(first.len(), "local-utterance-".len() + 36);
    assert_eq!(state.delta_id(Some("")), first);
    let final_id = state.final_id(None);
    assert_eq!(final_id, first);
    state.complete(&final_id);
    let next = state.delta_id(None);
    assert_ne!(next, first);
}

#[test]
fn explicit_ids_take_priority_over_an_active_fallback() {
    let mut state = NormalizationState::new();
    let fallback = state.delta_id(None);
    assert_eq!(state.delta_id(Some("item-2")), "item-2");
    assert_eq!(state.final_id(Some("item-2")), "item-2");
    assert_eq!(state.fail(Some("item-3")).as_deref(), Some("item-3"));
    assert_eq!(state.final_id(None), fallback);
}

#[test]
fn failures_are_charged_to_the_fallback_and_then_forget_it() {
    let mut state = NormalizationState::new();
    let fallback = state.delta_id(None);
    state.append_transcript(&fallback, "hello").unwrap();
    assert_eq!(state.fail(None), Some(fallback.clone()));
    assert_eq!(state.transcript(&fallback), None);
    assert_eq!(state.fail(None), None);
    assert_ne!(state.delta_id(None), fallback);
}

#[test]
fn snapshot_ids_are_kept_for_later_snapshots_and_the_final() {
    let mut state = NormalizationState::new();
    assert_eq!(state.snapshot_id(Some("item-1")), "item-1");
    assert_eq!(state.snapshot_id(None), "item-1");
    assert_eq!(state.final_id(None), "item-1");
    state.complete("item-1");
    let next = state.snapshot_id(None);
    assert!(next.starts_with("local-utterance-"));
    state.remember_snapshot("item-9");
    assert_eq!(state.snapshot_id(None), "item-9");
}

#[test]
fn a_single_open_transcript_names_the_final() {
    let mut state = NormalizationState::new();
    state.append_transcript("only", "text").unwrap();
    assert_eq!(state.final_id(None), "only");
    state.append_transcript("second", "more").unwrap();
    let id = state.final_id(None);
    assert!(id.starts_with("local-utterance-"));
}

#[test]
fn deltas_accumulate_until_taken() {
    let mut state = NormalizationState::new();
    assert_eq!(state.append_transcript("a", "hel").unwrap(), "hel");
    assert_eq!(state.append_transcript("a", "lo").unwrap(), "hello");
    assert_eq!(state.append_transcript("a", "").unwrap(), "hello");
    assert_eq!(state.append_transcript("b", "").unwrap(), "");
    assert_eq!(state.open_transcripts(), 1);
    assert_eq!(state.take_transcript("a").as_deref(), Some("hello"));
    assert_eq!(state.take_transcript("a"), None);
    assert_eq!(state.open_transcripts(), 0);
}

#[test]
fn transcripts_reject_oversized_deltas_and_too_many_ids() {
    let mut state = NormalizationState::new();
    let long = "a".repeat(MAX_TRANSCRIPT_BYTES + 1);
    assert_eq!(state.append_transcript("a", &long).unwrap_err(), TRANSCRIPT_TOO_LONG);
    state
        .append_transcript("a", &"a".repeat(MAX_TRANSCRIPT_BYTES))
        .unwrap();
    assert_eq!(state.append_transcript("a", "é").unwrap_err(), TRANSCRIPT_TOO_LONG);
    for index in 1..MAX_ACTIVE_TRANSCRIPTS {
        state.append_transcript(&format!("id-{index}"), "x").unwrap();
    }
    assert_eq!(state.open_transcripts(), MAX_ACTIVE_TRANSCRIPTS);
    assert_eq!(
        state.append_transcript("one-too-many", "x").unwrap_err(),
        TOO_MANY_TRANSCRIPTS
    );
    assert_eq!(state.append_transcript("id-1", "y").unwrap(), "xy");
}

// The scenarios below replay, through the state the adapters share, the
// utterance ids that a realtime adapter's messages carry: a delta names
// `item_id` when it has one, a completed transcript or a failure likewise.

#[test]
fn openai_deltas_are_accumulated_and_completed() {
    let mut state = NormalizationState::new();
    let id = state.delta_id(Some("a"));
    assert_eq!(state.append_transcript(&id, "hel").unwrap(), "hel");
    let id = state.delta_id(Some("a"));
    assert_eq!(state.append_transcript(&id, "lo").unwrap(), "hello");
    let final_id = state.final_id(Some("a"));
    assert_eq!(final_id, "a");
    state.complete(&final_id);
    assert_eq!(state.open_transcripts(), 0);
}

#[test]
fn protocol_event_ids_do_not_split_one_utterance() {
    let mut state = NormalizationState::new();
    let partial_id = state.delta_id(None);
    state.append_transcript(&partial_id, "hello").unwrap();
    let final_id = state.final_id(None);
    assert_eq!(partial_id, final_id);
    assert_ne!(partial_id, "event-1");
    assert_ne!(final_id, "event-2");
}

#[test]
fn snapshot_partial_id_is_reused_when_final_omits_it() {
    let mut state = NormalizationState::new();
    let partial_id = state.snapshot_id(Some("item-1"));
    let final_id = state.final_id(None);
    assert_eq!(partial_id, "item-1");
    assert_eq!(partial_id, final_id);
}

#[test]
fn fallback_ids_rotate_after_final() {
    let mut state = NormalizationState::new();
    let first_id = state.snapshot_id(None);
    let final_id = state.final_id(None);
    state.complete(&final_id);
    let second_id = state.snapshot_id(None);
    assert_eq!(first_id, final_id);
    assert_ne!(first_id, second_id);
}

#[test]
fn explicit_final_ids_take_priority_over_an_active_fallback() {
    let mut state = NormalizationState::new();
    let fallback = state.delta_id(None);
    state.append_transcript(&fallback, "first").unwrap();
    let second = state.delta_id(Some("item-2"));
    state.append_transcript(&second, "second").unwrap();
    assert_eq!(state.final_id(Some("item-2")), "item-2");
}

#[test]
fn explicit_failure_ids_take_priority_over_an_active_fallback() {
    let mut state = NormalizationState::new();
    let fallback = state.delta_id(None);
    state.append_transcript(&fallback, "first").unwrap();
    assert_eq!(state.fail(Some("item-2")).as_deref(), Some("item-2"));
}

#[test]
fn cloud_failures_keep_the_active_fallback_id() {
    let mut state = NormalizationState::new();
    let utterance_id = state.delta_id(None);
    state.append_transcript(&utterance_id, "hello").unwrap();
    assert_eq!(state.fail(None), Some(utterance_id));
}

#[test]
fn cloud_transcripts_reject_too_many_active_ids() {
    let mut state = NormalizationState::new();
    for index in 0..MAX_ACTIVE_TRANSCRIPTS {
        state.append_transcript(&format!("item-{index}"), "a").unwrap();
    }
    assert_eq!(
        state.append_transcript("overflow", "a").unwrap_err(),
        "Cloud recognition exceeded the active transcript limit"
    );
}

#[test]
fn cloud_transcripts_reject_oversized_delta() {
    let mut state = NormalizationState::new();
    assert_eq!(
        state
            .append_transcript("a", &"a".repeat(MAX_TRANSCRIPT_BYTES + 1))
            .unwrap_err(),
        "Cloud recognition transcript exceeded 65536 bytes"
    );
    assert_eq!(state.transcript("a"), None);
}
