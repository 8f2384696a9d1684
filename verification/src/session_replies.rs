//! What a realtime recognition service's replies mean while a session is set
//! up and when it ends, per protocol adapter.
use vstd::prelude::*;

use crate::config::AsrConfig;
use crate::json::{json_has, json_present, json_str_at, json_text, opt_string};
use crate::live_translation::{empty_state, event_ids, event_of, fresh_ids, serves, step, State};
use crate::streaming::CloudEvent;
use crate::streaming::Provider;
use crate::text::{concat, owned, push_str};

verus! {

/// How setup stands after a reply.
#[derive(Clone, Debug, PartialEq, Eq)]
pub enum InitializationEvent {
    Ready,
    Failed(String),
    Pending,
}

/// The value of an `InitializationEvent`: `None` while pending, `Some(None)`
/// when ready, `Some(Some(reason))` when setup failed.
pub open spec fn init_view(e: InitializationEvent) -> Option<Option<Seq<char>>> {
    match e {
        InitializationEvent::Ready => Some(None),
        InitializationEvent::Failed(r) => Some(Some(r@)),
        InitializationEvent::Pending => None,
    }
}

pub open spec fn ready() -> Option<Option<Seq<char>>> {
    Some(None)
}

pub open spec fn failed(reason: Seq<char>) -> Option<Option<Seq<char>>> {
    Some(Some(reason))
}

/// The text at `pointer`, or `default` when there is none.
pub open spec fn text_or(m: Seq<char>, pointer: Seq<char>, default: Seq<char>) -> Seq<char> {
    match json_text(m, pointer) {
        Some(t) => t,
        None => default,
    }
}

/// The model OpenAI must confirm for the source transcription.
pub const TRANSCRIPTION_MODEL: &'static str = "gpt-realtime-whisper";

/// `m` and `u` agree at `pointer`: both hold nothing there, or both hold the
/// same string.
pub open spec fn same_at(m: Seq<char>, u: Seq<char>, pointer: Seq<char>) -> bool {
    (!json_present(m, pointer) && !json_present(u, pointer)) || (json_text(m, pointer).is_some() && json_text(
        m,
        pointer,
    ) == json_text(u, pointer))
}

/// `; name=value` for a string field of the error, else nothing.
pub open spec fn error_field(m: Seq<char>, name: Seq<char>) -> Seq<char> {
    match json_text(m, "/error/"@ + name) {
        Some(v) => "; "@ + name + "="@ + v,
        None => Seq::empty(),
    }
}

/// The detail of an OpenAI translation error: its message, then its type,
/// code, parameter and event id where they are strings.
pub open spec fn error_detail_spec(m: Seq<char>) -> Seq<char> {
    text_or(m, "/error/message"@, "OpenAI Realtime Translation failed"@) + error_field(m, "type"@)
        + error_field(m, "code"@) + error_field(m, "param"@) + error_field(m, "event_id"@)
}

/// What reply `m` means for setup, for the adapter `p`; `u` is the setup
/// message that was sent.
pub open spec fn initialization_spec(p: Provider, m: Seq<char>, u: Seq<char>) -> Option<Option<Seq<char>>> {
    match p {
        Provider::Qwen | Provider::TokenPlan | Provider::OpenAi => {
            if json_text(m, "/type"@) == Some("session.updated"@) {
                ready()
            } else if json_text(m, "/type"@) == Some("error"@) {
                failed(text_or(m, "/error/message"@, "Cloud recognition session configuration failed"@))
            } else {
                None
            }
        },
        Provider::FunAsr => {
            if json_text(m, "/header/event"@) == Some("task-started"@) {
                ready()
            } else if json_text(m, "/header/event"@) == Some("task-failed"@) {
                failed(text_or(m, "/header/error_message"@, "Cloud recognition session configuration failed"@))
            } else {
                None
            }
        },
        Provider::Gemini | Provider::GeminiLiveTranslate => {
            if json_present(m, "/setupComplete"@) {
                ready()
            } else if json_present(m, "/error"@) {
                failed(text_or(m, "/error/message"@, "Gemini transcription session configuration failed"@))
            } else {
                None
            }
        },
        Provider::OpenAiLiveTranslate => {
            if json_text(m, "/type"@) == Some("session.updated"@) {
                if same_at(m, u, "/session/audio/output/language"@) && json_text(
                    m,
                    "/session/audio/input/transcription/model"@,
                ) == Some(TRANSCRIPTION_MODEL@) {
                    ready()
                } else {
                    failed(
                        "OpenAI did not confirm the requested translation target and source transcription model"@,
                    )
                }
            } else if json_text(m, "/type"@) == Some("error"@) {
                failed(error_detail_spec(m))
            } else if json_text(m, "/type"@) == Some("session.closed"@) {
                failed("OpenAI closed the translation session before configuration completed"@)
            } else {
                None
            }
        },
    }
}

fn is_text(found: &Option<String>, expected: &str) -> (r: bool)
    ensures
        r == (opt_string(*found) == Some(expected@)),
{
    match found {
        Some(s) => crate::text::str_eq(s.as_str(), expected),
        None => false,
    }
}

fn text_or_default(m: &str, pointer: &str, default: &str) -> (r: String)
    ensures
        r@ == text_or(m@, pointer@, default@),
{
    match json_str_at(m, pointer) {
        Some(t) => t,
        None => owned(default),
    }
}

fn push_error_field(detail: &mut String, m: &str, name: &str, pointer: &str)
    requires
        pointer@ == "/error/"@ + name@,
    ensures
        final(detail)@ == old(detail)@ + error_field(m@, name@),
{
    match json_str_at(m, pointer) {
        Some(v) => {
            push_str(detail, "; ");
            push_str(detail, name);
            push_str(detail, "=");
            push_str(detail, v.as_str());
            proof {
                reveal_strlit("; ");
                reveal_strlit("=");
            }
        },
        None => {
            assert(old(detail)@ + Seq::<char>::empty() =~= old(detail)@);
        },
    }
}

/// The detail of an OpenAI translation error, as `error_detail_spec` says.
pub fn error_detail(m: &str) -> (r: String)
    ensures
        r@ == error_detail_spec(m@),
{
    let mut detail = text_or_default(m, "/error/message", "OpenAI Realtime Translation failed");
    proof {
        reveal_strlit("/error/type");
        reveal_strlit("/error/code");
        reveal_strlit("/error/param");
        reveal_strlit("/error/event_id");
        reveal_strlit("/error/");
        reveal_strlit("type");
        reveal_strlit("code");
        reveal_strlit("param");
        reveal_strlit("event_id");
        assert("/error/type"@ =~= "/error/"@ + "type"@);
        assert("/error/code"@ =~= "/error/"@ + "code"@);
        assert("/error/param"@ =~= "/error/"@ + "param"@);
        assert("/error/event_id"@ =~= "/error/"@ + "event_id"@);
    }
    push_error_field(&mut detail, m, "type", "/error/type");
    push_error_field(&mut detail, m, "code", "/error/code");
    push_error_field(&mut detail, m, "param", "/error/param");
    push_error_field(&mut detail, m, "event_id", "/error/event_id");
    detail
}

fn same_text_at(m: &str, u: &str, pointer: &str) -> (r: bool)
    ensures
        r == same_at(m@, u@, pointer@),
{
    if !json_has(m, pointer) && !json_has(u, pointer) {
        return true;
    }
    match json_str_at(m, pointer) {
        Some(a) => match json_str_at(u, pointer) {
            Some(b) => crate::text::str_eq(a.as_str(), b.as_str()),
            None => false,
        },
        None => false,
    }
}

impl Provider {
    /// What reply `message` means while the session is set up; `update` is
    /// the setup message that was sent. Where OpenAI confirms the translation
    /// target, the two must both lack it or hold the same string; a target
    /// that is not a string is not taken as confirmed.
    pub fn initialization_event(self, message: &str, update: &str) -> (r: InitializationEvent)
        ensures
            init_view(r) == initialization_spec(self, message@, update@),
    {
        match self {
            Provider::Qwen | Provider::TokenPlan | Provider::OpenAi => {
                let t = json_str_at(message, "/type");
                if is_text(&t, "session.updated") {
                    InitializationEvent::Ready
                } else if is_text(&t, "error") {
                    InitializationEvent::Failed(
                        text_or_default(message, "/error/message", "Cloud recognition session configuration failed"),
                    )
                } else {
                    InitializationEvent::Pending
                }
            },
            Provider::FunAsr => {
                let t = json_str_at(message, "/header/event");
                if is_text(&t, "task-started") {
                    InitializationEvent::Ready
                } else if is_text(&t, "task-failed") {
                    InitializationEvent::Failed(
                        text_or_default(
                            message,
                            "/header/error_message",
                            "Cloud recognition session configuration failed",
                        ),
                    )
                } else {
                    InitializationEvent::Pending
                }
            },
            Provider::Gemini | Provider::GeminiLiveTranslate => {
                if json_has(message, "/setupComplete") {
                    InitializationEvent::Ready
                } else if json_has(message, "/error") {
                    InitializationEvent::Failed(
                        text_or_default(message, "/error/message", "Gemini transcription session configuration failed"),
                    )
                } else {
                    InitializationEvent::Pending
                }
            },
            Provider::OpenAiLiveTranslate => {
                let t = json_str_at(message, "/type");
                if is_text(&t, "session.updated") {
                    let model = json_str_at(message, "/session/audio/input/transcription/model");
                    if same_text_at(message, update, "/session/audio/output/language") && is_text(
                        &model,
                        TRANSCRIPTION_MODEL,
                    ) {
                        InitializationEvent::Ready
                    } else {
                        InitializationEvent::Failed(
                            owned(
                                "OpenAI did not confirm the requested translation target and source transcription model",
                            ),
                        )
                    }
                } else if is_text(&t, "error") {
                    InitializationEvent::Failed(error_detail(message))
                } else if is_text(&t, "session.closed") {
                    InitializationEvent::Failed(
                        owned("OpenAI closed the translation session before configuration completed"),
                    )
                } else {
                    InitializationEvent::Pending
                }
            },
        }
    }

    /// Whether reply `message` says the service finished the session.
    pub fn is_finished(self, message: &str) -> (r: bool)
        ensures
            r == match self {
                Provider::Qwen => json_text(message@, "/type"@) == Some("session.finished"@),
                Provider::FunAsr => json_text(message@, "/header/event"@) == Some("task-finished"@),
                Provider::OpenAiLiveTranslate => json_text(message@, "/type"@) == Some("session.closed"@),
                _ => false,
            },
    {
        match self {
            Provider::Qwen => is_text(&json_str_at(message, "/type"), "session.finished"),
            Provider::FunAsr => is_text(&json_str_at(message, "/header/event"), "task-finished"),
            Provider::OpenAiLiveTranslate => is_text(&json_str_at(message, "/type"), "session.closed"),
            _ => false,
        }
    }

    /// The message for a failed connection; `error` is how the connection
    /// error reads. Gemini's is fixed, so that its URL, which holds the key,
    /// is never shown.
    pub fn connection_error(self, error: &str) -> (r: String)
        ensures
            r@ == (if self == Provider::Gemini || self == Provider::GeminiLiveTranslate {
                "Failed to connect to Gemini transcription service"@
            } else {
                "Failed to connect to cloud recognition service: "@ + error@
            }),
    {
        if self == Provider::Gemini || self == Provider::GeminiLiveTranslate {
            owned("Failed to connect to Gemini transcription service")
        } else {
            concat("Failed to connect to cloud recognition service: ", error)
        }
    }
}

/// Whether the adapter translates as it listens.
pub open spec fn translates_live(p: Provider) -> bool {
    p == Provider::GeminiLiveTranslate || p == Provider::OpenAiLiveTranslate
}

impl Provider {
    /// Gives the live translation what is due at `now_ms`; only adapters that
    /// translate as they listen have any.
    pub fn poll_translation(self, config: &AsrConfig, state: &mut State, now_ms: u64) -> (r: Option<CloudEvent>)
        requires
            translates_live(self) ==> serves(*config),
        ensures
            translates_live(self) ==> (final(state)@, event_of(r)) == step(old(state)@, *config, false, now_ms, event_ids(r))
                && fresh_ids(event_ids(r), "live-source-"@),
            !translates_live(self) ==> r is None && final(state)@ == old(state)@,
    {
        if self == Provider::GeminiLiveTranslate || self == Provider::OpenAiLiveTranslate {
            crate::live_translation::poll(config, state, now_ms)
        } else {
            None
        }
    }

    /// Flushes the live translation when the session ends; only adapters that
    /// translate as they listen have any.
    pub fn finish_translation(self, config: &AsrConfig, state: &mut State, now_ms: u64) -> (r: Option<CloudEvent>)
        requires
            translates_live(self) ==> serves(*config),
        ensures
            translates_live(self) ==> event_of(r) == step(old(state)@, *config, true, now_ms, event_ids(r)).1
                && final(state)@ == empty_state() && fresh_ids(event_ids(r), "live-source-"@),
            !translates_live(self) ==> r is None && final(state)@ == old(state)@,
    {
        if self == Provider::GeminiLiveTranslate || self == Provider::OpenAiLiveTranslate {
            crate::live_translation::finish(config, state, now_ms)
        } else {
            None
        }
    }
}

/// What a session returns when OpenAI closes a translation session midway.
pub const TRANSLATION_CLOSED: &'static str = "OpenAI closed the translation session";

impl Provider {
    /// Whether reply `message`, arriving while audio still streams, ends the
    /// session: only OpenAI's translation sessions are closed by the service.
    pub fn ends_session(self, message: &str) -> (r: bool)
        ensures
            r == (self == Provider::OpenAiLiveTranslate && json_text(message@, "/type"@) == Some(
                "session.closed"@,
            )),
    {
        self == Provider::OpenAiLiveTranslate && self.is_finished(message)
    }

    /// How a session is ended: how many silent packets go first (Gemini's
    /// live translator only emits its last words while it receives audio),
    /// and how long, in milliseconds, to wait for the service to finish.
    pub fn finish_plan(self) -> (r: (usize, u64))
        ensures
            r.0 == (if self == Provider::GeminiLiveTranslate {
                5usize
            } else {
                0usize
            }),
            r.1 == (if translates_live(self) {
                5000u64
            } else {
                3000u64
            }),
    {
        let silent = if self == Provider::GeminiLiveTranslate {
            5
        } else {
            0
        };
        let wait = if self == Provider::GeminiLiveTranslate || self == Provider::OpenAiLiveTranslate {
            5000
        } else {
            3000
        };
        (silent, wait)
    }

    /// After waiting for the service to finish with `outcome`: whether the
    /// live translation is still flushed, and what ending the session
    /// returns. Only OpenAI's translation sessions report a failed ending.
    pub fn finish_outcome(self, outcome: Result<(), String>) -> (r: (bool, Result<(), String>))
        ensures
            r.0 == (self != Provider::OpenAiLiveTranslate || outcome is Ok),
            r.1 == (if self == Provider::OpenAiLiveTranslate {
                outcome
            } else {
                Ok(())
            }),
    {
        let flush = self != Provider::OpenAiLiveTranslate || outcome.is_ok();
        if self == Provider::OpenAiLiveTranslate {
            (flush, outcome)
        } else {
            (flush, Ok(()))
        }
    }
}

} // verus!
