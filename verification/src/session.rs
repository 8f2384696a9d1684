//! The decisions of one cloud recognition session, as a step function: the
//! caller feeds what happened (a timer tick, a stop request, captured audio,
//! a commit request, the end of the audio queue, a reply of the service) and
//! performs the action it gets back (poll the live translation, send audio
//! packets, commit, drain the queue, finish, or read the reply).
use vstd::prelude::*;

use crate::json::json_text;
use crate::streaming::{
    audio_packets, lemma_packets_conserve_audio, packet_rest, packets, sample_views, segmentation_spec,
    take_buffered_audio, Provider, SegmentationMode,
};
use crate::session_replies::translates_live;

verus! {

/// What a session keeps between events: the samples not yet sent as a whole
/// packet, whether audio arrived since the last commit, and whether the
/// session is draining its audio queue after a stop request.
pub struct SessionState<T> {
    pub buffer: Vec<T>,
    pub pending_audio: bool,
    pub draining: bool,
}

impl<T> View for SessionState<T> {
    type V = (Seq<T>, bool, bool);

    open spec fn view(&self) -> (Seq<T>, bool, bool) {
        (self.buffer@, self.pending_audio, self.draining)
    }
}

/// What happened, as the caller saw it.
pub enum SessionInput<T> {
    /// The live-translation timer fired.
    Tick,
    /// The session was asked to stop.
    Stop,
    /// Captured samples arrived.
    Audio(Vec<T>),
    /// The current utterance is to be committed.
    Commit,
    /// The audio queue is closed and empty.
    AudioClosed,
    /// The service sent this reply.
    Message(String),
}

/// What the caller does next.
pub enum SessionAction<T> {
    /// Nothing.
    Idle,
    /// Poll the live translation and report what it gives.
    PollTranslation,
    /// Send these packets, in order.
    SendAudio(Vec<Vec<T>>),
    /// Send the samples given, if any, then commit the utterance; answer the
    /// request with the outcome, and end the session with a failed commit.
    CommitUtterance(Option<Vec<T>>),
    /// Answer the commit request with success; nothing is sent.
    ConfirmCommit,
    /// Close the audio queue and feed what is left in it back as inputs.
    Drain,
    /// Send the samples given, if any; commit when `commit` holds, ignoring
    /// the outcome; then finish the session.
    Finish { flush: Option<Vec<T>>, commit: bool },
    /// The service closed the translation session: flush the live
    /// translation and end with `TRANSLATION_CLOSED`.
    CloseTranslation,
    /// Read the reply as an event of the service.
    Normalize,
}

/// The state of a new session.
pub open spec fn session_start<T>() -> (Seq<T>, bool, bool) {
    (Seq::empty(), false, false)
}

/// The samples that a flush sends of `buffer`: all of them, or nothing when
/// it is empty.
pub open spec fn flushed<T>(flush: Option<Vec<T>>, buffer: Seq<T>) -> bool {
    if buffer.len() > 0 {
        flush matches Some(v) && v@ == buffer
    } else {
        flush is None
    }
}

/// Whether a reply ends the session while audio still streams.
pub open spec fn closes_session(p: Provider, message: Seq<char>) -> bool {
    p == Provider::OpenAiLiveTranslate && json_text(message, "/type"@) == Some("session.closed"@)
}

/// Samples per packet for an adapter.
pub open spec fn packet_size(p: Provider) -> nat {
    if p == Provider::OpenAiLiveTranslate {
        3200
    } else {
        1600
    }
}

/// The state after an input.
pub open spec fn session_next<T>(s: (Seq<T>, bool, bool), p: Provider, input: SessionInput<T>) -> (
    Seq<T>,
    bool,
    bool,
) {
    match input {
        SessionInput::Tick => s,
        SessionInput::Stop => if s.2 {
            s
        } else if translates_live(p) {
            (s.0, s.1, true)
        } else {
            (Seq::empty(), false, s.2)
        },
        SessionInput::Audio(samples) => (packet_rest(s.0 + samples@, packet_size(p)), true, s.2),
        SessionInput::Commit => if s.2 {
            s
        } else {
            (Seq::empty(), false, s.2)
        },
        SessionInput::AudioClosed => (Seq::empty(), false, s.2),
        SessionInput::Message(_) => s,
    }
}

/// The action for an input in state `s`. A tick polls only adapters that
/// stream without utterance boundaries, and not while draining. A stop
/// drains the queue first for adapters that translate as they listen, and
/// otherwise finishes at once, as does the end of the queue: the rest of the
/// buffer is sent, and the utterance committed when audio arrived since the
/// last commit. Audio is cut into whole packets; a commit sends the rest of
/// the buffer first, or, while draining, is only confirmed. A reply that
/// closes the translation session ends it; any other is read.
pub open spec fn session_action<T>(
    s: (Seq<T>, bool, bool),
    p: Provider,
    input: SessionInput<T>,
    a: SessionAction<T>,
) -> bool {
    match input {
        SessionInput::Tick => if segmentation_spec(p) == SegmentationMode::Continuous && !s.2 {
            a is PollTranslation
        } else {
            a is Idle
        },
        SessionInput::Stop => if s.2 {
            a is Idle
        } else if translates_live(p) {
            a is Drain
        } else {
            a matches SessionAction::Finish { flush, commit } && flushed(flush, s.0) && commit == s.1
        },
        SessionInput::Audio(samples) => a matches SessionAction::SendAudio(ps) && sample_views(ps@) == packets(
            s.0 + samples@,
            packet_size(p),
        ),
        SessionInput::Commit => if s.2 {
            a is ConfirmCommit
        } else {
            a matches SessionAction::CommitUtterance(flush) && flushed(flush, s.0)
        },
        SessionInput::AudioClosed => a matches SessionAction::Finish { flush, commit } && flushed(flush, s.0)
            && commit == s.1,
        SessionInput::Message(m) => if closes_session(p, m@) {
            a is CloseTranslation
        } else {
            a is Normalize
        },
    }
}

impl<T> SessionState<T> {
    /// A new session: nothing buffered, nothing pending, not draining.
    pub fn new() -> (r: Self)
        ensures
            r@ == session_start::<T>(),
    {
        SessionState { buffer: Vec::new(), pending_audio: false, draining: false }
    }
}

/// Decides what a session does with one input, and updates its state.
pub fn session_step<T>(provider: Provider, state: &mut SessionState<T>, input: SessionInput<T>) -> (r: SessionAction<T>)
    ensures
        final(state)@ == session_next(old(state)@, provider, input),
        session_action(old(state)@, provider, input, r),
{
    match input {
        SessionInput::Tick => {
            if provider.segmentation_mode() == SegmentationMode::Continuous && !state.draining {
                SessionAction::PollTranslation
            } else {
                SessionAction::Idle
            }
        },
        SessionInput::Stop => {
            if state.draining {
                SessionAction::Idle
            } else if provider == Provider::GeminiLiveTranslate || provider == Provider::OpenAiLiveTranslate {
                state.draining = true;
                SessionAction::Drain
            } else {
                let flush = take_buffered_audio(&mut state.buffer);
                let commit = state.pending_audio;
                state.pending_audio = false;
                proof {
                    assert(state.buffer@ =~= Seq::<T>::empty());
                }
                SessionAction::Finish { flush, commit }
            }
        },
        SessionInput::Audio(samples) => {
            state.pending_audio = true;
            let sent = audio_packets(&mut state.buffer, samples, provider.audio_packet_samples());
            SessionAction::SendAudio(sent)
        },
        SessionInput::Commit => {
            if state.draining {
                SessionAction::ConfirmCommit
            } else {
                let flush = take_buffered_audio(&mut state.buffer);
                state.pending_audio = false;
                proof {
                    assert(state.buffer@ =~= Seq::<T>::empty());
                }
                SessionAction::CommitUtterance(flush)
            }
        },
        SessionInput::AudioClosed => {
            let flush = take_buffered_audio(&mut state.buffer);
            let commit = state.pending_audio;
            state.pending_audio = false;
            proof {
                assert(state.buffer@ =~= Seq::<T>::empty());
            }
            SessionAction::Finish { flush, commit }
        },
        SessionInput::Message(message) => {
            if provider.ends_session(message.as_str()) {
                SessionAction::CloseTranslation
            } else {
                SessionAction::Normalize
            }
        },
    }
}

/// The samples an input brings.
pub open spec fn arrived<T>(input: SessionInput<T>) -> Seq<T> {
    match input {
        SessionInput::Audio(samples) => samples@,
        _ => Seq::empty(),
    }
}

/// The samples an action sends, in order.
pub open spec fn sent<T>(a: SessionAction<T>) -> Seq<T> {
    match a {
        SessionAction::SendAudio(ps) => sample_views(ps@).flatten(),
        SessionAction::CommitUtterance(Some(v)) => v@,
        SessionAction::Finish { flush: Some(v), .. } => v@,
        _ => Seq::empty(),
    }
}

/// A session loses and repeats no sample: at every step, what is sent
/// followed by what stays buffered is what was buffered followed by what
/// arrived.
pub proof fn lemma_session_conserves_audio<T>(
    s: (Seq<T>, bool, bool),
    p: Provider,
    input: SessionInput<T>,
    a: SessionAction<T>,
)
    requires
        session_action(s, p, input, a),
    ensures
        sent(a) + session_next(s, p, input).0 == s.0 + arrived(input),
{
    match input {
        SessionInput::Audio(samples) => {
            lemma_packets_conserve_audio(s.0 + samples@, packet_size(p));
        },
        _ => {
            assert(Seq::<T>::empty() + s.0 =~= s.0);
            assert(s.0 + Seq::<T>::empty() =~= s.0);
            assert(s.0 + Seq::<T>::empty() =~= s.0 + arrived(input));
            if s.0.len() == 0 {
                assert(s.0 =~= Seq::<T>::empty());
            }
        },
    }
}


/// Exactly the adapters that translate as they listen stream without
/// utterance boundaries; so, outside draining, a tick polls the live
/// translation of Gemini and OpenAI live translation, and does nothing for
/// every other adapter.
pub proof fn lemma_live_translation_is_polled<T>(p: Provider, s: (Seq<T>, bool, bool), a: SessionAction<T>)
    requires
        session_action(s, p, SessionInput::Tick, a),
    ensures
        (segmentation_spec(p) == SegmentationMode::Continuous) <==> (p == Provider::GeminiLiveTranslate || p
            == Provider::OpenAiLiveTranslate),
        !s.2 && (p == Provider::GeminiLiveTranslate || p == Provider::OpenAiLiveTranslate) ==> a is PollTranslation,
        !(p == Provider::GeminiLiveTranslate || p == Provider::OpenAiLiveTranslate) ==> a is Idle,
{
}

} // verus!
