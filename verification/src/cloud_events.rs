//! What the cloud services' messages mean: each JSON message of a streaming
//! session becomes at most one `CloudEvent`.
use vstd::prelude::*;

use crate::config::AsrConfig;
use crate::json::{json_bool_at, json_flag, json_has, json_present, json_str_at, json_text};
use crate::live_translation::{
    append, append_outcome, append_timed, empty_state, opt_str, serves, timed, State,
};
use crate::normalization::{
    fail_spec, failed_id, final_spec, complete_spec, snapshot_spec,
    NormalizationState,
};
use crate::streaming::CloudEvent;

verus! {

/// A field's text, or `default` when the message has none.
pub open spec fn text_or(message: Seq<char>, pointer: Seq<char>, default: Seq<char>) -> Seq<char> {
    match json_text(message, pointer) {
        Some(t) => t,
        None => default,
    }
}

fn str_or(message: &str, pointer: &str, default: &str) -> (r: String)
    ensures
        r@ == text_or(message@, pointer@, default@),
{
    match json_str_at(message, pointer) {
        Some(t) => t,
        None => crate::text::owned(default),
    }
}

/// The utterance id a message names: `item_id` where present, else
/// `utterance_id`; a value that is not a string names none.
pub open spec fn message_id(message: Seq<char>) -> Option<Seq<char>> {
    if json_present(message, "/item_id"@) {
        json_text(message, "/item_id"@)
    } else {
        json_text(message, "/utterance_id"@)
    }
}

fn message_utterance(message: &str) -> (r: Option<String>)
    ensures
        crate::json::opt_string(r) == message_id(message@),
{
    if json_has(message, "/item_id") {
        json_str_at(message, "/item_id")
    } else {
        json_str_at(message, "/utterance_id")
    }
}

/// The language of an event: the one the message reports, else the
/// configured language unless it is `auto`.
pub open spec fn event_language_spec(config: AsrConfig, message: Seq<char>) -> Option<Seq<char>> {
    match json_text(message, "/language"@) {
        Some(l) => Some(l),
        None => if config.language@ != "auto"@ {
            Some(config.language@)
        } else {
            None
        },
    }
}

/// The language of an event, as `event_language_spec` says.
pub fn event_language(config: &AsrConfig, message: &str) -> (r: Option<String>)
    ensures
        crate::json::opt_string(r) == event_language_spec(*config, message@),
{
    match json_str_at(message, "/language") {
        Some(l) => Some(l),
        None => if !crate::text::str_eq(config.language.as_str(), "auto") {
            Some(config.language.clone())
        } else {
            None
        },
    }
}

pub open spec fn as_ref_opt(o: Option<String>) -> Option<Seq<char>> {
    crate::json::opt_string(o)
}

/// A Gemini transcription message: an error fails its utterance; an input
/// transcription is the final text of its utterance; a non-empty interim
/// transcription is a partial of the snapshot's utterance; anything else is
/// no event.
pub fn gemini_event(config: &AsrConfig, message: &str, state: &mut NormalizationState) -> (r: Option<
    CloudEvent,
>)
    requires
        old(state).wf(),
    ensures
        final(state).wf(),
        json_present(message@, "/error"@) ==> {
            let id = failed_id(old(state)@, message_id(message@));
            &&& final(state)@ == fail_spec(old(state)@, message_id(message@))
            &&& r matches Some(CloudEvent::Failed { utterance_id, reset_session, code, detail })
            &&& as_ref_opt(utterance_id) == id
            &&& reset_session == id.is_none()
            &&& code@ == "asr.cloud_error"@
            &&& detail@ == text_or(message@, "/error/message"@, "Gemini transcription request failed"@)
        },
        !json_present(message@, "/error"@) && json_text(message@, "/serverContent/inputTranscription/text"@)
            is Some ==> (r matches Some(CloudEvent::Final { utterance_id, text, language }) && {
            let (s1, id) = final_spec(old(state)@, message_id(message@), utterance_id@);
            &&& utterance_id@ == id
            &&& final(state)@ == complete_spec(s1, id)
            &&& Some(text@) == json_text(message@, "/serverContent/inputTranscription/text"@)
            &&& as_ref_opt(language) == event_language_spec(*config, message@)
        }),
        !json_present(message@, "/error"@) && json_text(message@, "/serverContent/inputTranscription/text"@)
            is None ==> match json_text(message@, "/serverContent/interimInputTranscription/text"@) {
            Some(t) => if t.len() > 0 {
                r matches Some(CloudEvent::Partial { utterance_id, text, language }) && text@ == t && as_ref_opt(
                    language,
                ) == event_language_spec(*config, message@) && (final(state)@, utterance_id@)
                    == snapshot_spec(old(state)@, message_id(message@), utterance_id@)
            } else {
                r is None && final(state)@ == old(state)@
            },
            None => r is None && final(state)@ == old(state)@,
        },
{
    let named = message_utterance(message);
    let explicit: Option<&str> = match &named {
        Some(n) => Some(n.as_str()),
        None => None,
    };
    assert(crate::normalization::str_opt(explicit) == message_id(message@));
    if json_has(message, "/error") {
        let utterance_id = state.fail(explicit);
        let reset_session = utterance_id.is_none();
        return Some(
            CloudEvent::Failed {
                reset_session,
                utterance_id,
                code: crate::text::owned("asr.cloud_error"),
                detail: str_or(message, "/error/message", "Gemini transcription request failed"),
            },
        );
    }
    let language = event_language(config, message);
    if let Some(text) = json_str_at(message, "/serverContent/inputTranscription/text") {
        let id = state.final_id(explicit);
        state.complete(id.as_str());
        return Some(CloudEvent::Final { utterance_id: id, text, language });
    }
    match json_str_at(message, "/serverContent/interimInputTranscription/text") {
        Some(text) => if crate::text::char_count(text.as_str()) > 0 {
            let id = state.snapshot_id(explicit);
            Some(CloudEvent::Partial { utterance_id: id, text, language })
        } else {
            None
        },
        None => None,
    }
}

/// The message that ends a Gemini Live Translate session with an error.
pub const GEMINI_LIVE_CLOSING: &'static str = "Gemini Live Translate is closing the session";

/// A Gemini Live Translate message: an error or a `goAway` ends the session;
/// an interruption starts the translation over and is reported; the source
/// and translated text of `serverContent` are appended to the session.
pub fn gemini_live_event(config: &AsrConfig, message: &str, state: &mut State, now_ms: u64) -> (r: Result<
    Option<CloudEvent>,
    String,
>)
    requires
        serves(*config),
    ensures
        json_present(message@, "/error"@) ==> final(state)@ == old(state)@ && (r matches Err(e) && e@
            == text_or(message@, "/error/message"@, "Gemini Live Translate failed"@)),
        !json_present(message@, "/error"@) && json_present(message@, "/goAway"@) ==> final(state)@ == old(
            state,
        )@ && (r matches Err(e) && e@ == GEMINI_LIVE_CLOSING@),
        !json_present(message@, "/error"@) && !json_present(message@, "/goAway"@) && !json_present(
            message@,
            "/serverContent"@,
        ) ==> final(state)@ == old(state)@ && r matches Ok(None),
        !json_present(message@, "/error"@) && !json_present(message@, "/goAway"@) && json_present(
            message@,
            "/serverContent"@,
        ) && json_flag(message@, "/serverContent/interrupted"@) == Some(true) ==> final(state)@ == empty_state()
            && (r matches Ok(Some(CloudEvent::Failed { utterance_id, reset_session, code, detail }))
            && utterance_id is None && reset_session && code@ == "asr.live_translation_interrupted"@ && detail@
            == "Gemini Live Translate output was interrupted"@),
        !json_present(message@, "/error"@) && !json_present(message@, "/goAway"@) && json_present(
            message@,
            "/serverContent"@,
        ) && json_flag(message@, "/serverContent/interrupted"@) != Some(true) ==> {
            let text = text_or(message@, "/serverContent/inputTranscription/text"@, Seq::empty());
            let translation = text_or(message@, "/serverContent/outputTranscription/text"@, Seq::empty());
            if text.len() == 0 && translation.len() == 0 {
                final(state)@ == old(state)@ && r matches Ok(None)
            } else {
                append_outcome(
                    old(state)@,
                    *config,
                    text,
                    translation,
                    json_text(message@, "/serverContent/inputTranscription/languageCode"@),
                    now_ms,
                    final(state)@,
                    r,
                )
            }
        },
{
    if json_has(message, "/error") {
        return Err(str_or(message, "/error/message", "Gemini Live Translate failed"));
    }
    if json_has(message, "/goAway") {
        return Err(crate::text::owned(GEMINI_LIVE_CLOSING));
    }
    if !json_has(message, "/serverContent") {
        return Ok(None);
    }
    if json_bool_at(message, "/serverContent/interrupted") == Some(true) {
        *state = State::new();
        return Ok(
            Some(
                CloudEvent::Failed {
                    utterance_id: None,
                    reset_session: true,
                    code: crate::text::owned("asr.live_translation_interrupted"),
                    detail: crate::text::owned("Gemini Live Translate output was interrupted"),
                },
            ),
        );
    }
    let text = str_or(message, "/serverContent/inputTranscription/text", "");
    let translation = str_or(message, "/serverContent/outputTranscription/text", "");
    proof {
        reveal_strlit("");
        assert(""@ =~= Seq::<char>::empty());
    }
    let language = json_str_at(message, "/serverContent/inputTranscription/languageCode");
    let lang: Option<&str> = match &language {
        Some(l) => Some(l.as_str()),
        None => None,
    };
    assert(opt_str(lang) == json_text(message@, "/serverContent/inputTranscription/languageCode"@));
    append(config, state, text.as_str(), translation.as_str(), lang, now_ms)
}

/// An OpenAI Realtime Translation message: a source transcript delta or a
/// translated transcript delta is appended to the timed session; an error
/// event is recoverable and, like anything else, gives no event.
pub fn openai_live_event(config: &AsrConfig, message: &str, state: &mut State, now_ms: u64) -> (r: Result<
    Option<CloudEvent>,
    String,
>)
    requires
        serves(*config),
    ensures
        ({
            let delta = text_or(message@, "/delta"@, Seq::empty());
            let kind = json_text(message@, "/type"@);
            if kind == Some("session.input_transcript.delta"@) || kind == Some(
                "session.output_transcript.delta"@,
            ) {
                let (text, translation) = if kind == Some("session.input_transcript.delta"@) {
                    (delta, Seq::<char>::empty())
                } else {
                    (Seq::<char>::empty(), delta)
                };
                if text.len() == 0 && translation.len() == 0 {
                    final(state)@ == old(state)@ && r matches Ok(None)
                } else {
                    append_outcome(timed(old(state)@), *config, text, translation, None, now_ms, final(state)@, r)
                }
            } else {
                final(state)@ == old(state)@ && r matches Ok(None)
            }
        }),
{
    let delta = str_or(message, "/delta", "");
    proof {
        reveal_strlit("");
        assert(""@ =~= Seq::<char>::empty());
    }
    match json_str_at(message, "/type") {
        Some(kind) => {
            if crate::text::str_eq(kind.as_str(), "session.input_transcript.delta") {
                append_timed(config, state, delta.as_str(), "", now_ms)
            } else if crate::text::str_eq(kind.as_str(), "session.output_transcript.delta") {
                append_timed(config, state, "", delta.as_str(), now_ms)
            } else {
                Ok(None)
            }
        },
        None => Ok(None),
    }
}

/// The language codes that Gemini transcription takes for a configured
/// language: none for automatic detection, a regional code for the common
/// languages, the configured code otherwise.
pub open spec fn language_code_spec(language: Seq<char>) -> Option<Seq<char>> {
    if language == "auto"@ {
        None
    } else if language == "en"@ {
        Some("en-US"@)
    } else if language == "ja"@ {
        Some("ja-JP"@)
    } else if language == "zh"@ {
        Some("cmn-Hans-CN"@)
    } else if language == "ko"@ {
        Some("ko-KR"@)
    } else if language == "es"@ {
        Some("es-419"@)
    } else if language == "fr"@ {
        Some("fr-FR"@)
    } else if language == "de"@ {
        Some("de-DE"@)
    } else {
        Some(language)
    }
}

/// The Gemini transcription language code, as `language_code_spec` says.
pub fn language_code(language: &str) -> (r: Option<String>)
    ensures
        crate::json::opt_string(r) == language_code_spec(language@),
{
    let eq = |t: &str| -> (b: bool)
        ensures
            b == (language@ == t@),
        { crate::text::str_eq(language, t) };
    if eq("auto") {
        None
    } else if eq("en") {
        Some(crate::text::owned("en-US"))
    } else if eq("ja") {
        Some(crate::text::owned("ja-JP"))
    } else if eq("zh") {
        Some(crate::text::owned("cmn-Hans-CN"))
    } else if eq("ko") {
        Some(crate::text::owned("ko-KR"))
    } else if eq("es") {
        Some(crate::text::owned("es-419"))
    } else if eq("fr") {
        Some(crate::text::owned("fr-FR"))
    } else if eq("de") {
        Some(crate::text::owned("de-DE"))
    } else {
        Some(crate::text::owned(language))
    }
}

/// Most custom vocabulary terms sent to Gemini.
pub const MAX_VOCABULARY_TERMS: usize = 100;

/// The pieces of `s` between line feeds.
pub open spec fn pieces(s: Seq<char>) -> Seq<Seq<char>>
    decreases s.len(),
{
    if s.len() == 0 {
        seq![Seq::empty()]
    } else {
        let p = pieces(s.drop_last());
        if s.last() == '\n' {
            p.push(Seq::empty())
        } else {
            p.update(p.len() - 1, p.last().push(s.last()))
        }
    }
}

proof fn lemma_pieces_nonempty(s: Seq<char>)
    ensures
        pieces(s).len() >= 1,
    decreases s.len(),
{
    if s.len() > 0 {
        lemma_pieces_nonempty(s.drop_last());
    }
}

/// The terms of `lines` in order: trimmed, without empty lines and
/// repetitions, at most `MAX_VOCABULARY_TERMS` of them.
pub open spec fn vocabulary_from(terms: Seq<Seq<char>>, lines: Seq<Seq<char>>) -> Seq<Seq<char>>
    decreases lines.len(),
{
    if lines.len() == 0 || terms.len() >= MAX_VOCABULARY_TERMS {
        terms
    } else {
        let t = crate::text::trim(lines[0]);
        let next = if t.len() > 0 && !terms.contains(t) {
            terms.push(t)
        } else {
            terms
        };
        vocabulary_from(next, lines.drop_first())
    }
}

/// The custom vocabulary of a service context: one term per line.
pub open spec fn vocabulary_spec(context: Seq<char>) -> Seq<Seq<char>> {
    vocabulary_from(Seq::empty(), pieces(context))
}

fn split_lines(s: &str) -> (r: Vec<String>)
    ensures
        crate::live_translation::texts(r@) == pieces(s@),
{
    let cs = chars_of_text(s);
    let mut out: Vec<String> = Vec::new();
    let mut current = String::new();
    let mut i: usize = 0;
    assert(cs@.take(0) =~= Seq::<char>::empty());
    assert(current@ =~= Seq::<char>::empty());
    assert(pieces(Seq::<char>::empty()) == seq![Seq::<char>::empty()]);
    while i < cs.len()
        invariant
            i <= cs@.len(),
            cs@ == s@,
            crate::live_translation::texts(out@).push(current@) == pieces(cs@.take(i as int)),
        decreases cs@.len() - i,
    {
        let ghost before = crate::live_translation::texts(out@).push(current@);
        assert(cs@.take(i + 1).drop_last() =~= cs@.take(i as int));
        assert(cs@.take(i + 1).last() == cs@[i as int]);
        proof {
            lemma_pieces_nonempty(cs@.take(i as int));
        }
        if cs[i] == '\n' {
            let done = current;
            let ghost prev = crate::live_translation::texts(out@);
            out.push(done);
            current = String::new();
            assert(crate::live_translation::texts(out@) =~= prev.push(done@));
            assert(crate::live_translation::texts(out@).push(current@) =~= before.push(Seq::<char>::empty()));
        } else {
            let ghost prev = crate::live_translation::texts(out@);
            crate::text::push_char(&mut current, cs[i]);
            assert(crate::live_translation::texts(out@).push(current@) =~= before.update(
                before.len() - 1,
                before.last().push(cs@[i as int]),
            ));
        }
        i = i + 1;
    }
    assert(cs@.take(i as int) =~= cs@);
    out.push(current);
    out
}

fn chars_of_text(s: &str) -> (r: Vec<char>)
    ensures
        r@ == s@,
{
    crate::text::chars_of(s)
}

fn contains_text(v: &Vec<String>, t: &str) -> (r: bool)
    ensures
        r == crate::live_translation::texts(v@).contains(t@),
{
    let mut i: usize = 0;
    while i < v.len()
        invariant
            i <= v@.len(),
            forall|j: int| 0 <= j < i ==> crate::live_translation::texts(v@)[j] != t@,
        decreases v@.len() - i,
    {
        if crate::text::str_eq(v[i].as_str(), t) {
            assert(crate::live_translation::texts(v@)[i as int] == t@);
            return true;
        }
        i = i + 1;
    }
    false
}

/// The custom vocabulary of a service context, as `vocabulary_spec` says.
pub fn custom_vocabulary(context: &str) -> (r: Vec<String>)
    ensures
        crate::live_translation::texts(r@) == vocabulary_spec(context@),
{
    let lines = split_lines(context);
    let ghost ls = crate::live_translation::texts(lines@);
    let mut terms: Vec<String> = Vec::new();
    let mut i: usize = 0;
    assert(ls.skip(0) =~= ls);
    assert(crate::live_translation::texts(terms@) =~= Seq::<Seq<char>>::empty());
    while i < lines.len() && terms.len() < MAX_VOCABULARY_TERMS
        invariant
            i <= lines@.len(),
            ls == crate::live_translation::texts(lines@),
            vocabulary_spec(context@) == vocabulary_from(crate::live_translation::texts(terms@), ls.skip(i as int)),
        decreases lines@.len() - i,
    {
        assert(ls.skip(i as int).drop_first() =~= ls.skip(i + 1));
        assert(ls.skip(i as int)[0] == ls[i as int]);
        let t = crate::text::trim_str(lines[i].as_str());
        if crate::text::char_count(t.as_str()) > 0 && !contains_text(&terms, t.as_str()) {
            let ghost prev = crate::live_translation::texts(terms@);
            terms.push(t);
            assert(crate::live_translation::texts(terms@) =~= prev.push(t@));
        }
        i = i + 1;
    }
    proof {
        if i >= lines@.len() {
            assert(ls.skip(i as int) =~= Seq::<Seq<char>>::empty());
        }
    }
    terms
}

/// What the setup of a Gemini transcription session holds: the model path, the
/// language code (none for automatic detection) and the custom vocabulary.
pub struct GeminiSetup {
    pub model: String,
    pub language_code: Option<String>,
    pub vocabulary: Vec<String>,
}

/// The setup of a Gemini transcription session; it fails when the service
/// has no settings.
pub fn gemini_setup(config: &AsrConfig) -> (r: Result<GeminiSetup, String>)
    requires
        config.service_settings.wf(),
    ensures
        match crate::service_settings::lookup(config.service_settings@, crate::providers::SERVICE_GEMINI_TRANSCRIBE@) {
            Some((model, context)) => r matches Ok(g) && g.model@ == "models/"@ + model && crate::json::opt_string(
                g.language_code,
            ) == language_code_spec(config.language@) && crate::live_translation::texts(g.vocabulary@)
                == vocabulary_spec(context),
            None => r matches Err(e) && e@ == "Recognition settings are missing for service "@
                + crate::providers::SERVICE_GEMINI_TRANSCRIBE@,
        },
{
    match config.service_settings.get(crate::providers::SERVICE_GEMINI_TRANSCRIBE) {
        Some(settings) => Ok(
            GeminiSetup {
                model: crate::text::concat("models/", settings.model.as_str()),
                language_code: language_code(config.language.as_str()),
                vocabulary: custom_vocabulary(settings.context.as_str()),
            },
        ),
        None => Err(
            crate::text::concat(
                "Recognition settings are missing for service ",
                crate::providers::SERVICE_GEMINI_TRANSCRIBE,
            ),
        ),
    }
}


/// What the setup of a Gemini live translation session holds: the model path
/// and the target language.
pub struct GeminiLiveSetup {
    pub model: String,
    pub target_language: String,
}

/// The setup of a Gemini live translation session: the service's settings
/// must exist, a target must be chosen and Gemini must support it; the
/// model is named under `models/`, however many times the settings already
/// say `models/`.
pub fn gemini_live_setup(config: &AsrConfig) -> (r: Result<GeminiLiveSetup, String>)
    requires
        config.service_settings.wf(),
    ensures
        match crate::service_settings::lookup(
            config.service_settings@,
            crate::providers::SERVICE_GEMINI_LIVE_TRANSLATE@,
        ) {
            None => r matches Err(e) && e@ == "Recognition settings are missing for service "@
                + crate::providers::SERVICE_GEMINI_LIVE_TRANSLATE@,
            Some((model, _)) => match config.live_translation_target {
                None => r matches Err(e) && e@ == "Select an automatic translation target for Gemini Live Translate"@,
                Some(t) => match crate::providers::live_language_err(
                    crate::providers::SERVICE_GEMINI_LIVE_TRANSLATE@,
                    t@,
                ) {
                    Some(e) => r matches Err(x) && x@ == e,
                    None => r matches Ok(g) && g.model@ == "models/"@ + crate::llm_gemini::strip_models(model)
                        && g.target_language@ == t@,
                },
            },
        },
{
    let settings = match config.service_settings.get(crate::providers::SERVICE_GEMINI_LIVE_TRANSLATE) {
        Some(s) => s,
        None => {
            return Err(
                crate::text::concat(
                    "Recognition settings are missing for service ",
                    crate::providers::SERVICE_GEMINI_LIVE_TRANSLATE,
                ),
            );
        },
    };
    let target = match &config.live_translation_target {
        Some(t) => t,
        None => {
            return Err("Select an automatic translation target for Gemini Live Translate".to_owned());
        },
    };
    crate::providers::validate_live_translation_language(
        crate::providers::SERVICE_GEMINI_LIVE_TRANSLATE,
        target.as_str(),
    )?;
    let model = crate::llm_gemini::without_models_prefix(settings.model.as_str());
    Ok(
        GeminiLiveSetup {
            model: crate::text::concat("models/", model.as_str()),
            target_language: target.clone(),
        },
    )
}

} // verus!
