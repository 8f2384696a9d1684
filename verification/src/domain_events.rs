//! Envelopes of the events the core publishes to its subscribers: what each
//! kind of event is called, which message it belongs to, who sent it, and the
//! JSON object it carries. Values that only `serde` can write (a subtitle, a
//! translation, a chat message, a live snapshot) come in already written.
use vstd::prelude::*;

use crate::ids::hyphenated;
use crate::llm_gemini::{json_string, quote_json};
use crate::text::{decimal, decimal_string, push_str};

verus! {

/// The version of the event format.
pub const API_VERSION: &'static str = "1.0";

/// Every event type the core publishes.
pub const EVENT_TYPES: [&'static str; 11] = [
    "asr.partial",
    "asr.final",
    "asr.cancelled",
    "asr.reset",
    "asr.failed",
    "translation.live_updated",
    "translation.started",
    "translation.partial",
    "translation.completed",
    "translation.failed",
    "chatbox.sent",
];

/// One published event. `payload` is the JSON text of the event's object.
#[derive(Clone, Debug)]
pub struct DomainEvent {
    pub api_version: &'static str,
    pub event_id: String,
    pub event_type: String,
    pub timestamp: String,
    pub message_id: String,
    pub source: String,
    pub payload: String,
}

/// Whether a character is an ASCII digit.
pub open spec fn is_digit(c: char) -> bool {
    '0' <= c <= '9'
}

/// Whether `s` is a UTC time in RFC 3339 form with microseconds and `Z`:
/// a year of at least four digits (a sign before years past 9999), then
/// `-MM-DDTHH:MM:SS.ffffffZ`.
pub open spec fn rfc3339_micros_utc(s: Seq<char>) -> bool {
    let n = s.len() as int;
    &&& n >= 27
    &&& forall|i: int| n - 27 <= i < n - 23 ==> is_digit(#[trigger] s[i])
    &&& s[n - 23] == '-' && is_digit(s[n - 22]) && is_digit(s[n - 21])
    &&& s[n - 20] == '-' && is_digit(s[n - 19]) && is_digit(s[n - 18])
    &&& s[n - 17] == 'T' && is_digit(s[n - 16]) && is_digit(s[n - 15])
    &&& s[n - 14] == ':' && is_digit(s[n - 13]) && is_digit(s[n - 12])
    &&& s[n - 11] == ':' && is_digit(s[n - 10]) && is_digit(s[n - 9])
    &&& s[n - 8] == '.'
    &&& forall|i: int| n - 7 <= i < n - 1 ==> is_digit(#[trigger] s[i])
    &&& s[n - 1] == 'Z'
}

/// Calls `chrono::Utc::now` and writes it with `to_rfc3339_opts` in
/// microseconds with `Z` for UTC. The time is the machine's, so the contract
/// claims only the form that chrono writes every such time in (its
/// `write_rfc3339`): a year of at least four digits, two-digit month, day,
/// hour, minute and second, six fraction digits and `Z`. Which time it is
/// is left unsaid.
#[verifier::external_body]
pub fn now_iso8601() -> (r: String)
    ensures
        rfc3339_micros_utc(r@),
{
    chrono::Utc::now().to_rfc3339_opts(chrono::SecondsFormat::Micros, true)
}

/// An integer as JSON writes it.
pub open spec fn int_text(n: int) -> Seq<char> {
    if n < 0 {
        seq!['-'] + decimal((-n) as nat)
    } else {
        decimal(n as nat)
    }
}

/// An optional text as JSON writes it: `null` or a string.
pub open spec fn opt_text(s: Option<Seq<char>>) -> Seq<char> {
    match s {
        Some(t) => json_string(t),
        None => "null"@,
    }
}

/// An optional integer as JSON writes it.
pub open spec fn opt_int(n: Option<i64>) -> Seq<char> {
    match n {
        Some(v) => int_text(v as int),
        None => "null"@,
    }
}

pub open spec fn str_opt(s: Option<&str>) -> Option<Seq<char>> {
    match s {
        Some(t) => Some(t@),
        None => None,
    }
}

pub open spec fn string_opt(s: Option<String>) -> Option<Seq<char>> {
    match s {
        Some(t) => Some(t@),
        None => None,
    }
}

/// The fields that an envelope takes from its arguments; the id and the time
/// are its own.
pub open spec fn envelope(
    e: DomainEvent,
    event_type: Seq<char>,
    message_id: Seq<char>,
    source: Seq<char>,
    payload: Seq<char>,
) -> bool {
    &&& e.api_version@ == API_VERSION@
    &&& e.event_type@ == event_type
    &&& e.message_id@ == message_id
    &&& e.source@ == source
    &&& e.payload@ == payload
    &&& hyphenated(e.event_id@)
    &&& rfc3339_micros_utc(e.timestamp@)
}

fn int_string(n: i64) -> (r: String)
    ensures
        r@ == int_text(n as int),
{
    if n < 0 {
        let magnitude: u64 = if n == i64::MIN {
            9_223_372_036_854_775_808u64
        } else {
            (-n) as u64
        };
        let mut r = String::new();
        crate::text::push_char(&mut r, '-');
        push_str(&mut r, decimal_string(magnitude).as_str());
        assert(r@ =~= int_text(n as int));
        r
    } else {
        decimal_string(n as u64)
    }
}

fn opt_string(s: Option<&str>) -> (r: String)
    ensures
        r@ == opt_text(str_opt(s)),
{
    match s {
        Some(t) => quote_json(t),
        None => crate::text::owned("null"),
    }
}

fn opt_int_string(n: Option<i64>) -> (r: String)
    ensures
        r@ == opt_int(n),
{
    match n {
        Some(v) => int_string(v),
        None => crate::text::owned("null"),
    }
}

/// Writes `{"k1":v1,"k2":v2,...}` from keys and already-written values.
fn object(keys: &Vec<&str>, values: &Vec<String>) -> (r: String)
    requires
        keys@.len() == values@.len(),
    ensures
        r@ == object_text(keys@.map_values(|k: &str| k@), values@.map_values(|v: String| v@)),
{
    let ghost ks = keys@.map_values(|k: &str| k@);
    let ghost vs = values@.map_values(|v: String| v@);
    let mut out = crate::text::owned("{");
    let mut i: usize = 0;
    proof {
        reveal_strlit("{");
        assert(ks.take(0).len() == 0);
        assert(out@ =~= seq!['{'] + members(ks.take(0), vs.take(0)));
    }
    while i < keys.len()
        invariant
            i <= keys@.len(),
            keys@.len() == values@.len(),
            ks == keys@.map_values(|k: &str| k@),
            vs == values@.map_values(|v: String| v@),
            out@ == seq!['{'] + members(ks.take(i as int), vs.take(i as int)),
        decreases keys@.len() - i,
    {
        if i > 0 {
            crate::text::push_char(&mut out, ',');
        }
        push_str(&mut out, quote_json(keys[i]).as_str());
        crate::text::push_char(&mut out, ':');
        push_str(&mut out, values[i].as_str());
        proof {
            assert(ks.take(i + 1).drop_last() =~= ks.take(i as int));
            assert(vs.take(i + 1).drop_last() =~= vs.take(i as int));
        }
        i = i + 1;
    }
    crate::text::push_char(&mut out, '}');
    proof {
        assert(ks.take(ks.len() as int) =~= ks);
        assert(vs.take(vs.len() as int) =~= vs);
    }
    out
}

/// The members of a JSON object, `"k":v` joined by commas.
pub open spec fn members(keys: Seq<Seq<char>>, values: Seq<Seq<char>>) -> Seq<char>
    decreases keys.len(),
{
    if keys.len() == 0 {
        Seq::empty()
    } else {
        let head = members(keys.drop_last(), values.drop_last());
        let member = json_string(keys.last()) + seq![':'] + values.last();
        if keys.len() == 1 {
            member
        } else {
            head + seq![','] + member
        }
    }
}

/// A JSON object with these keys and already-written values, in this order.
pub open spec fn object_text(keys: Seq<Seq<char>>, values: Seq<Seq<char>>) -> Seq<char> {
    seq!['{'] + members(keys, values) + seq!['}']
}

impl DomainEvent {
    /// An event of `event_type` for `message_id` from `source`, carrying the
    /// JSON object `payload`, with a fresh id and the current time.
    pub fn new(event_type: &str, message_id: &str, source: &str, payload: String) -> (e: DomainEvent)
        ensures
            envelope(e, event_type@, message_id@, source@, payload@),
    {
        DomainEvent {
            api_version: API_VERSION,
            event_id: crate::ids::random_uuid(),
            event_type: crate::text::owned(event_type),
            timestamp: now_iso8601(),
            message_id: crate::text::owned(message_id),
            source: crate::text::owned(source),
            payload,
        }
    }

    /// A control event for a connection: its source is `system`.
    pub fn control(event_type: &str, connection_id: &str, payload: String) -> (e: DomainEvent)
        ensures
            envelope(e, event_type@, connection_id@, "system"@, payload@),
    {
        DomainEvent::new(event_type, connection_id, "system", payload)
    }

    /// A live translation snapshot changed; `snapshot_json` is the snapshot
    /// written as JSON, and the event belongs to the snapshot's utterance.
    pub fn live_translation(
        source: &str,
        snapshot: &crate::models::LiveTranslation,
        snapshot_json: String,
    ) -> (e: DomainEvent)
        ensures
            envelope(
                e,
                "translation.live_updated"@,
                snapshot.utterance_id@,
                source@,
                snapshot_json@,
            ),
    {
        DomainEvent::new("translation.live_updated", snapshot.utterance_id.as_str(), source, snapshot_json)
    }

    /// Recognition produced a partial text.
    pub fn asr_partial(message_id: &str, source: &str, text: &str, language: Option<&str>) -> (e:
        DomainEvent)
        ensures
            envelope(
                e,
                "asr.partial"@,
                message_id@,
                source@,
                object_text(
                    seq!["language"@, "text"@],
                    seq![opt_text(str_opt(language)), json_string(text@)],
                ),
            ),
    {
        let keys: Vec<&str> = vec!["language", "text"];
        let values: Vec<String> = vec![opt_string(language), quote_json(text)];
        proof {
            reveal_strlit("language");
            reveal_strlit("text");
            assert(keys@.map_values(|k: &str| k@) =~= seq!["language"@, "text"@]);
            assert(values@.map_values(|v: String| v@) =~= seq![
                opt_text(str_opt(language)),
                json_string(text@),
            ]);
        }
        DomainEvent::new("asr.partial", message_id, source, object(&keys, &values))
    }

    /// Recognition finished a subtitle; `subtitle_json` is the subtitle
    /// written as JSON. The event comes from the subtitle's source.
    pub fn asr_final(message_id: &str, subtitle: &crate::models::Subtitle, subtitle_json: &str) -> (e:
        DomainEvent)
        ensures
            envelope(
                e,
                "asr.final"@,
                message_id@,
                subtitle.source@,
                object_text(
                    seq!["language"@, "subtitle"@, "subtitle_id"@, "text"@],
                    seq![
                        opt_text(string_opt(subtitle.language)),
                        subtitle_json@,
                        opt_int(subtitle.id),
                        json_string(subtitle.text@),
                    ],
                ),
            ),
    {
        let language = match &subtitle.language {
            Some(l) => Some(l.as_str()),
            None => None,
        };
        let keys: Vec<&str> = vec!["language", "subtitle", "subtitle_id", "text"];
        let values: Vec<String> = vec![
            opt_string(language),
            crate::text::owned(subtitle_json),
            opt_int_string(subtitle.id),
            quote_json(subtitle.text.as_str()),
        ];
        proof {
            reveal_strlit("language");
            reveal_strlit("subtitle");
            reveal_strlit("subtitle_id");
            reveal_strlit("text");
            assert(keys@.map_values(|k: &str| k@) =~= seq![
                "language"@,
                "subtitle"@,
                "subtitle_id"@,
                "text"@,
            ]);
            assert(values@.map_values(|v: String| v@) =~= seq![
                opt_text(string_opt(subtitle.language)),
                subtitle_json@,
                opt_int(subtitle.id),
                json_string(subtitle.text@),
            ]);
        }
        DomainEvent::new("asr.final", message_id, subtitle.source.as_str(), object(&keys, &values))
    }

    /// Recognition of an utterance was cancelled.
    pub fn asr_cancelled(message_id: &str, source: &str, reason: &str) -> (e: DomainEvent)
        ensures
            envelope(
                e,
                "asr.cancelled"@,
                message_id@,
                source@,
                object_text(seq!["reason"@], seq![json_string(reason@)]),
            ),
    {
        let keys: Vec<&str> = vec!["reason"];
        let values: Vec<String> = vec![quote_json(reason)];
        proof {
            reveal_strlit("reason");
            assert(keys@.map_values(|k: &str| k@) =~= seq!["reason"@]);
            assert(values@.map_values(|v: String| v@) =~= seq![json_string(reason@)]);
        }
        DomainEvent::new("asr.cancelled", message_id, source, object(&keys, &values))
    }

    /// Recognition was reset; the event belongs to the session.
    pub fn asr_reset(source: &str) -> (e: DomainEvent)
        ensures
            envelope(e, "asr.reset"@, "session"@, source@, "{}"@),
    {
        DomainEvent::new("asr.reset", "session", source, crate::text::owned("{}"))
    }

    /// Recognition failed, for an utterance or, without one, for the session.
    pub fn asr_failed(message_id: Option<&str>, source: &str, code: &str, detail: &str) -> (e:
        DomainEvent)
        ensures
            envelope(
                e,
                "asr.failed"@,
                match message_id {
                    Some(m) => m@,
                    None => "session"@,
                },
                source@,
                object_text(
                    seq!["code"@, "detail"@, "utterance_id"@],
                    seq![json_string(code@), json_string(detail@), opt_text(str_opt(message_id))],
                ),
            ),
    {
        let keys: Vec<&str> = vec!["code", "detail", "utterance_id"];
        let values: Vec<String> = vec![quote_json(code), quote_json(detail), opt_string(message_id)];
        proof {
            reveal_strlit("code");
            reveal_strlit("detail");
            reveal_strlit("utterance_id");
            assert(keys@.map_values(|k: &str| k@) =~= seq!["code"@, "detail"@, "utterance_id"@]);
            assert(values@.map_values(|v: String| v@) =~= seq![
                json_string(code@),
                json_string(detail@),
                opt_text(str_opt(message_id)),
            ]);
        }
        let id = match message_id {
            Some(m) => m,
            None => "session",
        };
        DomainEvent::new("asr.failed", id, source, object(&keys, &values))
    }

    /// Translation of a subtitle into `target_language` started.
    pub fn translation_started(
        message_id: &str,
        source: &str,
        subtitle_id: i64,
        target_language: &str,
    ) -> (e: DomainEvent)
        ensures
            envelope(
                e,
                "translation.started"@,
                message_id@,
                source@,
                object_text(
                    seq!["subtitle_id"@, "target_language"@],
                    seq![int_text(subtitle_id as int), json_string(target_language@)],
                ),
            ),
    {
        let keys: Vec<&str> = vec!["subtitle_id", "target_language"];
        let values: Vec<String> = vec![int_string(subtitle_id), quote_json(target_language)];
        proof {
            reveal_strlit("subtitle_id");
            reveal_strlit("target_language");
            assert(keys@.map_values(|k: &str| k@) =~= seq!["subtitle_id"@, "target_language"@]);
            assert(values@.map_values(|v: String| v@) =~= seq![
                int_text(subtitle_id as int),
                json_string(target_language@),
            ]);
        }
        DomainEvent::new("translation.started", message_id, source, object(&keys, &values))
    }

    /// Part of a translation arrived.
    pub fn translation_partial(
        message_id: &str,
        source: &str,
        subtitle_id: i64,
        text: &str,
        target_language: &str,
    ) -> (e: DomainEvent)
        ensures
            envelope(
                e,
                "translation.partial"@,
                message_id@,
                source@,
                object_text(
                    seq!["subtitle_id"@, "target_language"@, "text"@],
                    seq![
                        int_text(subtitle_id as int),
                        json_string(target_language@),
                        json_string(text@),
                    ],
                ),
            ),
    {
        let keys: Vec<&str> = vec!["subtitle_id", "target_language", "text"];
        let values: Vec<String> = vec![
            int_string(subtitle_id),
            quote_json(target_language),
            quote_json(text),
        ];
        proof {
            reveal_strlit("subtitle_id");
            reveal_strlit("target_language");
            reveal_strlit("text");
            assert(keys@.map_values(|k: &str| k@) =~= seq![
                "subtitle_id"@,
                "target_language"@,
                "text"@,
            ]);
            assert(values@.map_values(|v: String| v@) =~= seq![
                int_text(subtitle_id as int),
                json_string(target_language@),
                json_string(text@),
            ]);
        }
        DomainEvent::new("translation.partial", message_id, source, object(&keys, &values))
    }

    /// A translation was completed; `translation_json` is the translation
    /// written as JSON.
    pub fn translation_completed(
        message_id: &str,
        source: &str,
        subtitle_id: i64,
        translation_json: &str,
    ) -> (e: DomainEvent)
        ensures
            envelope(
                e,
                "translation.completed"@,
                message_id@,
                source@,
                object_text(
                    seq!["subtitle_id"@, "translation"@],
                    seq![int_text(subtitle_id as int), translation_json@],
                ),
            ),
    {
        let keys: Vec<&str> = vec!["subtitle_id", "translation"];
        let values: Vec<String> = vec![int_string(subtitle_id), crate::text::owned(translation_json)];
        proof {
            reveal_strlit("subtitle_id");
            reveal_strlit("translation");
            assert(keys@.map_values(|k: &str| k@) =~= seq!["subtitle_id"@, "translation"@]);
            assert(values@.map_values(|v: String| v@) =~= seq![
                int_text(subtitle_id as int),
                translation_json@,
            ]);
        }
        DomainEvent::new("translation.completed", message_id, source, object(&keys, &values))
    }

    /// A translation failed.
    pub fn translation_failed(
        message_id: &str,
        source: &str,
        subtitle_id: i64,
        target_language: &str,
        code: &str,
        detail: &str,
    ) -> (e: DomainEvent)
        ensures
            envelope(
                e,
                "translation.failed"@,
                message_id@,
                source@,
                object_text(
                    seq!["code"@, "detail"@, "subtitle_id"@, "target_language"@],
                    seq![
                        json_string(code@),
                        json_string(detail@),
                        int_text(subtitle_id as int),
                        json_string(target_language@),
                    ],
                ),
            ),
    {
        let keys: Vec<&str> = vec!["code", "detail", "subtitle_id", "target_language"];
        let values: Vec<String> = vec![
            quote_json(code),
            quote_json(detail),
            int_string(subtitle_id),
            quote_json(target_language),
        ];
        proof {
            reveal_strlit("code");
            reveal_strlit("detail");
            reveal_strlit("subtitle_id");
            reveal_strlit("target_language");
            assert(keys@.map_values(|k: &str| k@) =~= seq![
                "code"@,
                "detail"@,
                "subtitle_id"@,
                "target_language"@,
            ]);
            assert(values@.map_values(|v: String| v@) =~= seq![
                json_string(code@),
                json_string(detail@),
                int_text(subtitle_id as int),
                json_string(target_language@),
            ]);
        }
        DomainEvent::new("translation.failed", message_id, source, object(&keys, &values))
    }

    /// A chat message was sent; `message_json` is the message written as
    /// JSON. The event comes from the chatbox.
    pub fn chatbox_sent(message_id: &str, message_json: &str) -> (e: DomainEvent)
        ensures
            envelope(
                e,
                "chatbox.sent"@,
                message_id@,
                "chatbox"@,
                object_text(seq!["message"@], seq![message_json@]),
            ),
    {
        let keys: Vec<&str> = vec!["message"];
        let values: Vec<String> = vec![crate::text::owned(message_json)];
        proof {
            reveal_strlit("message");
            assert(keys@.map_values(|k: &str| k@) =~= seq!["message"@]);
            assert(values@.map_values(|v: String| v@) =~= seq![message_json@]);
        }
        DomainEvent::new("chatbox.sent", message_id, "chatbox", object(&keys, &values))
    }
}

} // verus!
