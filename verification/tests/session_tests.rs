use vrcs_core::session::{session_step, SessionAction, SessionInput, SessionState};
use vrcs_core::streaming::Provider;

fn samples(n: usize, value: f32) -> Vec<f32> {
    vec![value; n]
}

#[test]
fn audio_is_sent_in_whole_packets_and_the_rest_waits() {
    let mut state = SessionState::new();
    match session_step(Provider::Qwen, &mut state, SessionInput::Audio(samples(1000, 0.25))) {
        SessionAction::SendAudio(packets) => assert!(packets.is_empty()),
        _ => panic!("expected audio packets"),
    }
    assert_eq!(state.buffer.len(), 1000);
    assert!(state.pending_audio);
    match session_step(Provider::Qwen, &mut state, SessionInput::Audio(samples(700, 0.5))) {
        SessionAction::SendAudio(packets) => {
            assert_eq!(packets.len(), 1);
            assert_eq!(packets[0].len(), 1600);
            assert_eq!(packets[0][999], 0.25);
            assert_eq!(packets[0][1000], 0.5);
        }
        _ => panic!("expected audio packets"),
    }
    assert_eq!(state.buffer.len(), 100);
}

#[test]
fn openai_translation_packets_hold_3200_samples() {
    let mut state = SessionState::new();
    match session_step(Provider::OpenAiLiveTranslate, &mut state, SessionInput::Audio(samples(6500, 0.0))) {
        SessionAction::SendAudio(packets) => {
            assert_eq!(packets.len(), 2);
            assert!(packets.iter().all(|packet| packet.len() == 3200));
        }
        _ => panic!("expected audio packets"),
    }
    assert_eq!(state.buffer.len(), 100);
}

#[test]
fn commit_sends_the_rest_of_the_buffer_first() {
    let mut state = SessionState::new();
    session_step(Provider::OpenAi, &mut state, SessionInput::Audio(samples(10, 1.0)));
    match session_step(Provider::OpenAi, &mut state, SessionInput::Commit) {
        SessionAction::CommitUtterance(Some(rest)) => assert_eq!(rest.len(), 10),
        _ => panic!("expected a commit with the buffered samples"),
    }
    assert!(state.buffer.is_empty());
    assert!(!state.pending_audio);
    assert!(matches!(
        session_step(Provider::OpenAi, &mut state, SessionInput::Commit),
        SessionAction::CommitUtterance(None)
    ));
}

#[test]
fn stop_finishes_at_once_and_commits_pending_audio() {
    let mut state = SessionState::new();
    session_step(Provider::Qwen, &mut state, SessionInput::Audio(samples(5, 0.0)));
    match session_step(Provider::Qwen, &mut state, SessionInput::Stop) {
        SessionAction::Finish { flush: Some(rest), commit } => {
            assert_eq!(rest.len(), 5);
            assert!(commit);
        }
        _ => panic!("expected the session to finish"),
    }
    let mut idle = SessionState::<f32>::new();
    assert!(matches!(
        session_step(Provider::FunAsr, &mut idle, SessionInput::Stop),
        SessionAction::Finish { flush: None, commit: false }
    ));
}

#[test]
fn live_translation_drains_the_queue_before_finishing() {
    let mut state = SessionState::new();
    assert!(matches!(
        session_step(Provider::GeminiLiveTranslate, &mut state, SessionInput::Stop),
        SessionAction::Drain
    ));
    assert!(state.draining);
    assert!(matches!(
        session_step(Provider::GeminiLiveTranslate, &mut state, SessionInput::Tick),
        SessionAction::Idle
    ));
    session_step(Provider::GeminiLiveTranslate, &mut state, SessionInput::Audio(samples(20, 0.0)));
    assert!(matches!(
        session_step(Provider::GeminiLiveTranslate, &mut state, SessionInput::Commit),
        SessionAction::ConfirmCommit
    ));
    match session_step(Provider::GeminiLiveTranslate, &mut state, SessionInput::AudioClosed) {
        SessionAction::Finish { flush: Some(rest), commit } => {
            assert_eq!(rest.len(), 20);
            assert!(commit);
        }
        _ => panic!("expected the session to finish"),
    }
}

#[test]
fn only_continuous_adapters_poll_the_translation() {
    let mut state = SessionState::<f32>::new();
    assert!(matches!(
        session_step(Provider::OpenAiLiveTranslate, &mut state, SessionInput::Tick),
        SessionAction::PollTranslation
    ));
    assert!(matches!(
        session_step(Provider::Qwen, &mut state, SessionInput::Tick),
        SessionAction::Idle
    ));
}

#[test]
fn closed_openai_translation_ends_the_session() {
    let mut state = SessionState::<f32>::new();
    let closed = r#"{"type":"session.closed"}"#.to_string();
    assert!(matches!(
        session_step(Provider::OpenAiLiveTranslate, &mut state, SessionInput::Message(closed.clone())),
        SessionAction::CloseTranslation
    ));
    assert!(matches!(
        session_step(Provider::Qwen, &mut state, SessionInput::Message(closed)),
        SessionAction::Normalize
    ));
    assert!(matches!(
        session_step(
            Provider::OpenAiLiveTranslate,
            &mut state,
            SessionInput::Message(r#"{"type":"session.updated"}"#.to_string())
        ),
        SessionAction::Normalize
    ));
}
