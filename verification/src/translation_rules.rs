//! Rules for translation: the prompt template, the target routes of each audio
//! source, and the saved language presets.
use vstd::prelude::*;

use crate::config::{
    ApiProfile, LanguagePreset, TranslationConfig, TranslationPromptConfig,
    TranslationTargetConfig,
};
use crate::glossary_rules::{entries_err, validate_glossary_entries};
use crate::profile_rules::{find_profile, find_profile_index};
use crate::providers::{
    dash_free, is_live_translation, is_valid_translation_language, language_tag, live_language_err,
    live_translation_service, llm_models_spec, str_in, str_views, supports_llm_models,
    supports_translation, supports_translation_language, translation_language_spec,
    translation_spec, validate_live_translation_language,
};
use crate::rules::{err_of, first_err, lemma_first_err_at, lemma_first_err_none, then};
use crate::text::{
    ascii_lower, ascii_lowercase, char_count, chars_of, concat, concat3, is_ascii_alnum, is_ascii_alpha, is_blank,
    string_of_range, str_eq, trim, trim_str,
};
use crate::validation::{asr_language_list, asr_languages, is_osc_strategy};

verus! {

/// The variables a translation prompt may use.
pub open spec fn prompt_variable(v: Seq<char>) -> bool {
    v == "source_language"@ || v == "target_language"@ || v == "glossary"@ || v == "context"@
}

/// Scans `t` from position `i`; `start` is where the open variable's name
/// begins, if a `{` is open. The result is the first error met.
pub open spec fn scan_prompt(t: Seq<char>, i: int, start: Option<int>) -> Option<Seq<char>>
    decreases t.len() - i,
{
    if i < 0 || i >= t.len() {
        if start.is_some() {
            Some("Translation system prompt contains an unclosed variable"@)
        } else {
            None
        }
    } else if t[i] == '{' {
        match start {
            None => scan_prompt(t, i + 1, Some(i + 1)),
            Some(_) => Some("Translation system prompt contains a nested variable"@),
        }
    } else if t[i] == '}' {
        match start {
            Some(s) => {
                let name = t.subrange(s, i);
                if !prompt_variable(name) {
                    Some("Unsupported translation prompt variable: {"@ + name + "}"@)
                } else {
                    scan_prompt(t, i + 1, None)
                }
            },
            None => Some("Translation system prompt contains an unmatched closing brace"@),
        }
    } else {
        scan_prompt(t, i + 1, start)
    }
}

/// Why the variables of a prompt template are not acceptable.
pub open spec fn prompt_variables_err(t: Seq<char>) -> Option<Seq<char>> {
    scan_prompt(t, 0, None)
}

fn is_prompt_variable(v: &str) -> (r: bool)
    ensures
        r == prompt_variable(v@),
{
    str_eq(v, "source_language") || str_eq(v, "target_language") || str_eq(v, "glossary")
        || str_eq(v, "context")
}

/// Checks that every `{variable}` of a template is closed, not nested, and known.
pub fn validate_prompt_variables(template: &str) -> (r: Result<(), String>)
    ensures
        err_of(r) == prompt_variables_err(template@),
{
    let cs = chars_of(template);
    let mut start: Option<usize> = None;
    let mut i: usize = 0;
    while i < cs.len()
        invariant
            i <= cs@.len(),
            cs@ == template@,
            match start {
                Some(s) => s <= i,
                None => true,
            },
            prompt_variables_err(template@) == scan_prompt(
                template@,
                i as int,
                match start {
                    Some(s) => Some(s as int),
                    None => None,
                },
            ),
        decreases cs@.len() - i,
    {
        let c = cs[i];
        if c == '{' {
            match start {
                None => {
                    start = Some(i + 1);
                },
                Some(_) => {
                    return Err("Translation system prompt contains a nested variable".to_owned());
                },
            }
        } else if c == '}' {
            match start {
                Some(s) => {
                    let name = string_of_range(&cs, s, i);
                    if !is_prompt_variable(name.as_str()) {
                        return Err(
                            concat3(
                                "Unsupported translation prompt variable: {",
                                name.as_str(),
                                "}",
                            ),
                        );
                    }
                    start = None;
                },
                None => {
                    return Err(
                        "Translation system prompt contains an unmatched closing brace".to_owned(),
                    );
                },
            }
        }
        i = i + 1;
    }
    if start.is_some() {
        return Err("Translation system prompt contains an unclosed variable".to_owned());
    }
    Ok(())
}

/// Why a translation prompt configuration is not acceptable.
pub open spec fn translation_prompt_err(p: TranslationPromptConfig) -> Option<Seq<char>> {
    if p.system_prompt@.len() > 8000 {
        Some("Translation system prompt cannot exceed 8000 characters"@)
    } else if prompt_variables_err(p.system_prompt@).is_some() {
        prompt_variables_err(p.system_prompt@)
    } else if !(1 <= p.max_messages <= 50) {
        Some("Translation context max_messages must be between 1 and 50"@)
    } else if !(200 <= p.max_chars <= 12000) {
        Some("Translation context max_chars must be between 200 and 12000"@)
    } else {
        entries_err(p.glossary@, "Translation glossary"@)
    }
}

/// Checks the system prompt, the context limits and the prompt glossary.
pub fn validate_translation_prompt(prompt: &TranslationPromptConfig) -> (r: Result<(), String>)
    ensures
        err_of(r) == translation_prompt_err(*prompt),
{
    if char_count(prompt.system_prompt.as_str()) > 8000 {
        return Err("Translation system prompt cannot exceed 8000 characters".to_owned());
    }
    validate_prompt_variables(prompt.system_prompt.as_str())?;
    if !(1 <= prompt.max_messages && prompt.max_messages <= 50) {
        return Err("Translation context max_messages must be between 1 and 50".to_owned());
    }
    if !(200 <= prompt.max_chars && prompt.max_chars <= 12000) {
        return Err("Translation context max_chars must be between 200 and 12000".to_owned());
    }
    validate_glossary_entries(prompt.glossary.as_slice(), "Translation glossary")
}

/// Why the `i`-th translation target of `source` is not acceptable, given that
/// the ones before it are.
pub open spec fn target_err(
    source: Seq<char>,
    targets: Seq<TranslationTargetConfig>,
    profiles: Seq<ApiProfile>,
    require_profile: bool,
    live_service: Seq<char>,
    i: int,
) -> Option<Seq<char>> {
    let t = targets[i];
    let language = t.target_language@;
    if !language_tag(language) {
        Some("Invalid "@ + source + " translation target language: "@ + language)
    } else if exists|j: int|
        0 <= j < i && ascii_lower(#[trigger] targets[j].target_language@) == ascii_lower(language) {
        Some("Translation "@ + source + " target languages must be unique"@)
    } else if live_translation_service(live_service) && i == 0 {
        live_language_err(live_service, language)
    } else {
        match t.profile_id {
            None => if require_profile {
                Some("A translation API profile must be selected for "@ + language)
            } else {
                None
            },
            Some(id) => match find_profile_index(profiles, id@) {
                None => Some("The selected translation API profile does not exist"@),
                Some(k) => if !translation_spec(&profiles[k]) {
                    Some("The selected API profile does not support translation"@)
                } else if !translation_language_spec(&profiles[k], language) {
                    Some("The selected API profile does not support target language: "@ + language)
                } else if llm_models_spec(&profiles[k]) && trim(t.model@).len() == 0 {
                    Some("The LLM translation model cannot be empty"@)
                } else {
                    None
                },
            },
        }
    }
}

/// The target checks of one source, one per position.
pub open spec fn target_checks(
    source: Seq<char>,
    targets: Seq<TranslationTargetConfig>,
    profiles: Seq<ApiProfile>,
    require_profile: bool,
    live_service: Seq<char>,
) -> spec_fn(int) -> Option<Seq<char>> {
    |i: int| target_err(source, targets, profiles, require_profile, live_service, i)
}

/// Why the translation targets of `source` are not acceptable.
pub open spec fn targets_err(
    source: Seq<char>,
    targets: Seq<TranslationTargetConfig>,
    profiles: Seq<ApiProfile>,
    require_profile: bool,
    live_service: Seq<char>,
) -> Option<Seq<char>> {
    if !(1 <= targets.len() <= 3) {
        Some("Translation "@ + source + " targets must contain between 1 and 3 entries"@)
    } else {
        first_err(
            target_checks(source, targets, profiles, require_profile, live_service),
            0,
            targets.len() as int,
        )
    }
}

fn check_target(
    source: &str,
    targets: &Vec<TranslationTargetConfig>,
    profiles: &Vec<ApiProfile>,
    require_profile: bool,
    live_service: &str,
    i: usize,
    lowered: &Vec<String>,
) -> (r: Result<String, String>)
    requires
        i < targets@.len(),
        lowered@.len() == i,
        forall|j: int| 0 <= j < i ==> #[trigger] lowered@[j]@ == ascii_lower(targets@[j].target_language@),
    ensures
        match r {
            Ok(l) => target_err(
                source@,
                targets@,
                profiles@,
                require_profile,
                live_service@,
                i as int,
            ).is_none() && l@ == ascii_lower(targets@[i as int].target_language@),
            Err(e) => target_err(
                source@,
                targets@,
                profiles@,
                require_profile,
                live_service@,
                i as int,
            ) == Some(e@),
        },
{
    let t = &targets[i];
    let language = t.target_language.as_str();
    if !is_valid_translation_language(language) {
        let head = concat3("Invalid ", source, " translation target language: ");
        return Err(concat(head.as_str(), language));
    }
    let l = ascii_lowercase(language);
    let mut j: usize = 0;
    while j < i
        invariant
            j <= i < targets@.len(),
            *t == targets@[i as int],
            language@ == t.target_language@,
            language_tag(language@),
            l@ == ascii_lower(language@),
            lowered@.len() == i,
            forall|k: int|
                0 <= k < i ==> #[trigger] lowered@[k]@ == ascii_lower(targets@[k].target_language@),
            forall|k: int|
                0 <= k < j ==> ascii_lower(#[trigger] targets@[k].target_language@) != l@,
        decreases i - j,
    {
        if str_eq(lowered[j].as_str(), l.as_str()) {
            assert(ascii_lower(targets@[j as int].target_language@) == l@);
            return Err(concat3("Translation ", source, " target languages must be unique"));
        }
        j = j + 1;
    }
    if is_live_translation(live_service) && i == 0 {
        return match validate_live_translation_language(live_service, language) {
            Ok(()) => Ok(l),
            Err(e) => Err(e),
        };
    }
    let id = match &t.profile_id {
        None => {
            if require_profile {
                return Err(concat("A translation API profile must be selected for ", language));
            }
            return Ok(l);
        },
        Some(id) => id,
    };
    let k = match find_profile(profiles, id.as_str()) {
        None => {
            return Err("The selected translation API profile does not exist".to_owned());
        },
        Some(k) => k,
    };
    let p = &profiles[k];
    if !supports_translation(p) {
        return Err("The selected API profile does not support translation".to_owned());
    }
    if !supports_translation_language(p, language) {
        return Err(concat("The selected API profile does not support target language: ", language));
    }
    if supports_llm_models(p) && is_blank(t.model.as_str()) {
        return Err("The LLM translation model cannot be empty".to_owned());
    }
    Ok(l)
}

/// Checks the translation targets of one audio source: one to three distinct
/// valid languages, each routed to a profile that can translate into it. The
/// first target of a live-translation service is translated by that service.
pub fn validate_translation_targets(
    source: &str,
    targets: &Vec<TranslationTargetConfig>,
    profiles: &Vec<ApiProfile>,
    require_profile: bool,
    live_service: &str,
) -> (r: Result<(), String>)
    ensures
        err_of(r) == targets_err(source@, targets@, profiles@, require_profile, live_service@),
{
    if !(1 <= targets.len() && targets.len() <= 3) {
        return Err(concat3("Translation ", source, " targets must contain between 1 and 3 entries"));
    }
    let ghost f = target_checks(source@, targets@, profiles@, require_profile, live_service@);
    let mut lowered: Vec<String> = Vec::new();
    let mut i: usize = 0;
    while i < targets.len()
        invariant
            i <= targets@.len() <= 3,
            1 <= targets@.len(),
            f == target_checks(source@, targets@, profiles@, require_profile, live_service@),
            lowered@.len() == i,
            forall|j: int|
                0 <= j < i ==> #[trigger] lowered@[j]@ == ascii_lower(targets@[j].target_language@),
            forall|j: int| 0 <= j < i ==> #[trigger] f(j).is_none(),
        decreases targets@.len() - i,
    {
        match check_target(source, targets, profiles, require_profile, live_service, i, &lowered) {
            Err(e) => {
                proof {
                    lemma_first_err_at(f, 0, targets@.len() as int, i as int);
                }
                return Err(e);
            },
            Ok(l) => {
                lowered.push(l);
            },
        }
        i = i + 1;
    }
    proof {
        lemma_first_err_none(f, 0, targets@.len() as int);
    }
    Ok(())
}

/// Whether `m` is a translation mode.
pub open spec fn translation_mode(m: Seq<char>) -> bool {
    m == "disabled"@ || m == "manual"@ || m == "automatic"@
}

fn is_translation_mode(m: &str) -> (r: bool)
    ensures
        r == translation_mode(m@),
{
    str_eq(m, "disabled") || str_eq(m, "manual") || str_eq(m, "automatic")
}

/// The service whose live translation serves the first target: the
/// recognition service in automatic mode, none otherwise.
pub open spec fn live_for_mode(mode: Seq<char>, live_service: Seq<char>) -> Seq<char> {
    if mode == "automatic"@ {
        live_service
    } else {
        Seq::empty()
    }
}

fn live_service_for_mode<'a>(mode: &str, live_service: &'a str) -> (r: &'a str)
    ensures
        r@ == live_for_mode(mode@, live_service@),
{
    if str_eq(mode, "automatic") {
        live_service
    } else {
        proof {
            reveal_strlit("");
        }
        ""
    }
}

/// Why the translation configuration is not acceptable.
pub open spec fn translation_err(
    t: TranslationConfig,
    profiles: Seq<ApiProfile>,
    live_service: Seq<char>,
) -> Option<Seq<char>> {
    let mode = t.mode@;
    let require = mode != "disabled"@;
    let live = live_for_mode(mode, live_service);
    if translation_prompt_err(t.prompt).is_some() {
        translation_prompt_err(t.prompt)
    } else if !translation_mode(mode) {
        Some("Unsupported translation mode: "@ + mode)
    } else {
        then(
            targets_err("speaker"@, t.speaker_targets@, profiles, require, live),
            targets_err("microphone"@, t.microphone_targets@, profiles, require, live),
        )
    }
}

/// Checks the prompt, the mode and both sources' targets.
pub fn validate_translation(
    translation: &TranslationConfig,
    profiles: &Vec<ApiProfile>,
    live_service: &str,
) -> (r: Result<(), String>)
    ensures
        err_of(r) == translation_err(*translation, profiles@, live_service@),
{
    validate_translation_prompt(&translation.prompt)?;
    let mode = translation.mode.as_str();
    if !is_translation_mode(mode) {
        return Err(concat("Unsupported translation mode: ", mode));
    }
    let require = !str_eq(mode, "disabled");
    let live = live_service_for_mode(mode, live_service);
    validate_translation_targets("speaker", &translation.speaker_targets, profiles, require, live)?;
    validate_translation_targets(
        "microphone",
        &translation.microphone_targets,
        profiles,
        require,
        live,
    )
}

/// Why the `i`-th language preset is not acceptable, given that the ones
/// before it are and whether its id parses as a UUID.
pub open spec fn preset_err(
    presets: Seq<LanguagePreset>,
    profiles: Seq<ApiProfile>,
    live_service: Seq<char>,
    i: int,
    id_is_uuid: bool,
) -> Option<Seq<char>> {
    let p = presets[i];
    let name = trim(p.name@);
    let mode = p.translation_mode@;
    let require = mode != "disabled"@;
    let live = live_for_mode(mode, live_service);
    let strategy = p.osc_translation_strategy@;
    if !id_is_uuid || exists|j: int| 0 <= j < i && #[trigger] presets[j].id@ == p.id@ {
        Some("Language preset IDs must be unique UUIDs"@)
    } else if name.len() == 0 || name.len() > 40 || exists|j: int|
        0 <= j < i && ascii_lower(trim(#[trigger] presets[j].name@)) == ascii_lower(name) {
        Some("Language preset names must be unique and contain 1 to 40 characters"@)
    } else if !str_views(asr_language_list()).contains(p.recognition_language@) {
        Some("Unsupported preset recognition language: "@ + p.recognition_language@)
    } else if !translation_mode(mode) {
        Some("Unsupported preset translation mode: "@ + mode)
    } else if targets_err("preset speaker"@, p.speaker_targets@, profiles, require, live).is_some() {
        targets_err("preset speaker"@, p.speaker_targets@, profiles, require, live)
    } else if targets_err(
        "preset microphone"@,
        p.microphone_targets@,
        profiles,
        require,
        live,
    ).is_some() {
        targets_err("preset microphone"@, p.microphone_targets@, profiles, require, live)
    } else if strategy != "preferred_only"@ && strategy != "round_robin"@ && strategy
        != "all_languages"@ {
        Some("Unsupported preset OSC translation strategy: "@ + strategy)
    } else {
        None
    }
}

/// Whether a character is a hexadecimal digit, in either case.
pub open spec fn is_hex(c: char) -> bool {
    ('0' <= c <= '9') || ('a' <= c <= 'f') || ('A' <= c <= 'F')
}

/// 32 hexadecimal digits.
pub open spec fn uuid_simple(s: Seq<char>) -> bool {
    s.len() == 32 && forall|i: int| 0 <= i < 32 ==> is_hex(#[trigger] s[i])
}

/// The hyphenated form: hexadecimal digits in groups of 8, 4, 4, 4 and 12.
pub open spec fn uuid_hyphenated(s: Seq<char>) -> bool {
    s.len() == 36 && forall|i: int|
        0 <= i < 36 ==> if i == 8 || i == 13 || i == 18 || i == 23 {
            #[trigger] s[i] == '-'
        } else {
            is_hex(s[i])
        }
}

/// `urn:uuid:`, ignoring ASCII case.
pub open spec fn urn_prefix(s: Seq<char>) -> bool {
    &&& s.len() >= 9
    &&& (s[0] == 'u' || s[0] == 'U') && (s[1] == 'r' || s[1] == 'R') && (s[2] == 'n' || s[2] == 'N')
    &&& s[3] == ':'
    &&& (s[4] == 'u' || s[4] == 'U') && (s[5] == 'u' || s[5] == 'U') && (s[6] == 'i' || s[6] == 'I')
    &&& (s[7] == 'd' || s[7] == 'D')
    &&& s[8] == ':'
}

/// The texts `uuid::Uuid::parse_str` accepts: the simple or the hyphenated
/// form, the hyphenated form in braces, or after `urn:uuid:`.
pub open spec fn uuid_text(s: Seq<char>) -> bool {
    ||| uuid_simple(s)
    ||| uuid_hyphenated(s)
    ||| (s.len() == 38 && s[0] == '{' && s[37] == '}' && uuid_hyphenated(s.subrange(1, 37)))
    ||| (s.len() == 45 && urn_prefix(s) && uuid_hyphenated(s.skip(9)))
}

/// Calls `uuid::Uuid::parse_str` and reports whether it accepted the text.
/// Its parser (`try_parse`) picks the form by the length in bytes: 32 simple,
/// 36 hyphenated, 38 braced, 45 with the `urn:uuid:` prefix compared ignoring
/// ASCII case; each position must then hold a hexadecimal digit or, where
/// the form has one, a hyphen. Every accepted text is ASCII, so bytes and
/// characters agree.
#[verifier::external_body]
fn parse_uuid_ok(s: &str) -> (r: bool)
    ensures
        r == uuid_text(s@),
{
    uuid::Uuid::parse_str(s).is_ok()
}

/// The preset checks, one per position.
pub open spec fn preset_checks(
    presets: Seq<LanguagePreset>,
    profiles: Seq<ApiProfile>,
    live_service: Seq<char>,
) -> spec_fn(int) -> Option<Seq<char>> {
    |i: int| preset_err(presets, profiles, live_service, i, uuid_text(presets[i].id@))
}

/// Why the language presets are not acceptable.
pub open spec fn presets_err(
    presets: Seq<LanguagePreset>,
    profiles: Seq<ApiProfile>,
    live_service: Seq<char>,
) -> Option<Seq<char>> {
    if presets.len() > 5 {
        Some("Language presets cannot exceed 5 entries"@)
    } else {
        first_err(preset_checks(presets, profiles, live_service), 0, presets.len() as int)
    }
}

/// Checks the `i`-th language preset, given whether its id parses as a UUID
/// and the lower-cased trimmed names of the presets before it.
pub fn validate_language_preset(
    presets: &Vec<LanguagePreset>,
    profiles: &Vec<ApiProfile>,
    live_service: &str,
    i: usize,
    id_is_uuid: bool,
    names: &Vec<String>,
) -> (r: Result<String, String>)
    requires
        i < presets@.len(),
        names@.len() == i,
        forall|j: int| 0 <= j < i ==> #[trigger] names@[j]@ == ascii_lower(trim(presets@[j].name@)),
    ensures
        match r {
            Ok(n) => preset_err(presets@, profiles@, live_service@, i as int, id_is_uuid).is_none()
                && n@ == ascii_lower(trim(presets@[i as int].name@)),
            Err(e) => preset_err(presets@, profiles@, live_service@, i as int, id_is_uuid) == Some(
                e@,
            ),
        },
{
    let p = &presets[i];
    let mut valid = id_is_uuid;
    let mut j: usize = 0;
    while valid && j < i
        invariant
            j <= i < presets@.len(),
            *p == presets@[i as int],
            valid ==> id_is_uuid && forall|k: int| 0 <= k < j ==> #[trigger] presets@[k].id@ != p.id@,
            !valid ==> !id_is_uuid || exists|k: int| 0 <= k < i && #[trigger] presets@[k].id@ == p.id@,
        decreases i - j,
    {
        if str_eq(presets[j].id.as_str(), p.id.as_str()) {
            assert(presets@[j as int].id@ == p.id@);
            valid = false;
        }
        j = j + 1;
    }
    if !valid {
        return Err("Language preset IDs must be unique UUIDs".to_owned());
    }
    let name = trim_str(p.name.as_str());
    let n = char_count(name.as_str());
    let lowered = ascii_lowercase(name.as_str());
    let mut unique = true;
    let mut j: usize = 0;
    while unique && j < i
        invariant
            j <= i < presets@.len(),
            *p == presets@[i as int],
            name@ == trim(p.name@),
            lowered@ == ascii_lower(name@),
            names@.len() == i,
            forall|k: int| 0 <= k < i ==> #[trigger] names@[k]@ == ascii_lower(trim(presets@[k].name@)),
            unique ==> forall|k: int|
                0 <= k < j ==> ascii_lower(trim(#[trigger] presets@[k].name@)) != lowered@,
            !unique ==> exists|k: int|
                0 <= k < i && ascii_lower(trim(#[trigger] presets@[k].name@)) == lowered@,
        decreases i - j,
    {
        if str_eq(names[j].as_str(), lowered.as_str()) {
            assert(ascii_lower(trim(presets@[j as int].name@)) == lowered@);
            unique = false;
        }
        j = j + 1;
    }
    if n == 0 || n > 40 || !unique {
        return Err(
            "Language preset names must be unique and contain 1 to 40 characters".to_owned(),
        );
    }
    if !str_in(p.recognition_language.as_str(), &asr_languages()) {
        return Err(
            concat("Unsupported preset recognition language: ", p.recognition_language.as_str()),
        );
    }
    let mode = p.translation_mode.as_str();
    if !is_translation_mode(mode) {
        return Err(concat("Unsupported preset translation mode: ", mode));
    }
    let require = !str_eq(mode, "disabled");
    let live = live_service_for_mode(mode, live_service);
    validate_translation_targets("preset speaker", &p.speaker_targets, profiles, require, live)?;
    validate_translation_targets(
        "preset microphone",
        &p.microphone_targets,
        profiles,
        require,
        live,
    )?;
    if !is_osc_strategy(p.osc_translation_strategy.as_str()) {
        return Err(
            concat(
                "Unsupported preset OSC translation strategy: ",
                p.osc_translation_strategy.as_str(),
            ),
        );
    }
    Ok(lowered)
}

/// Checks the saved language presets: at most five, with unique UUID ids and
/// unique names, each with valid languages, modes and targets.
pub fn validate_language_presets(
    presets: &Vec<LanguagePreset>,
    profiles: &Vec<ApiProfile>,
    live_service: &str,
) -> (r: Result<(), String>)
    ensures
        err_of(r) == presets_err(presets@, profiles@, live_service@),
{
    if presets.len() > 5 {
        return Err("Language presets cannot exceed 5 entries".to_owned());
    }
    let ghost f = preset_checks(presets@, profiles@, live_service@);
    let mut names: Vec<String> = Vec::new();
    let mut i: usize = 0;
    while i < presets.len()
        invariant
            i <= presets@.len() <= 5,
            f == preset_checks(presets@, profiles@, live_service@),
            names@.len() == i,
            forall|j: int| 0 <= j < i ==> #[trigger] names@[j]@ == ascii_lower(trim(presets@[j].name@)),
            forall|j: int| 0 <= j < i ==> #[trigger] f(j).is_none(),
        decreases presets@.len() - i,
    {
        let id_is_uuid = parse_uuid_ok(presets[i].id.as_str());
        match validate_language_preset(presets, profiles, live_service, i, id_is_uuid, &names) {
            Err(e) => {
                proof {
                    lemma_first_err_at(f, 0, presets@.len() as int, i as int);
                }
                return Err(e);
            },
            Ok(n) => {
                names.push(n);
            },
        }
        i = i + 1;
    }
    proof {
        lemma_first_err_none(f, 0, presets@.len() as int);
    }
    Ok(())
}

/// Scanning text without braces neither opens nor closes a variable.
proof fn lemma_scan_plain(t: Seq<char>, i: int, j: int, start: Option<int>)
    requires
        0 <= i <= j <= t.len(),
        forall|k: int| i <= k < j ==> t[k] != '{' && t[k] != '}',
    ensures
        scan_prompt(t, i, start) == scan_prompt(t, j, start),
    decreases j - i,
{
    if i < j {
        lemma_scan_plain(t, i + 1, j, start);
    }
}

/// The shipped translation prompt uses only known variables, each closed.
pub proof fn lemma_default_prompt_valid()
    ensures
        prompt_variables_err(crate::config::DEFAULT_TRANSLATION_SYSTEM_PROMPT@).is_none(),
        crate::config::DEFAULT_TRANSLATION_SYSTEM_PROMPT@.len() == 181,
{
    reveal_strlit("Translate the {source_language} text into {target_language}. Use the glossary when it applies:\n{glossary}\nRecent conversation for context:\n{context}\nReply with the translation only.");
    let t = crate::config::DEFAULT_TRANSLATION_SYSTEM_PROMPT@;
    assert(t == "Translate the {source_language} text into {target_language}. Use the glossary when it applies:\n{glossary}\nRecent conversation for context:\n{context}\nReply with the translation only."@);
    assert forall|k: int| 0 <= k < 181 implies (#[trigger] t[k] == '{' ==> k == 14 || k == 42 || k == 95 || k == 139) && (t[k] == '}' ==> k == 30 || k == 58 || k == 104 || k == 147) by {
        assert(k == 0 || k == 1 || k == 2 || k == 3 || k == 4 || k == 5 || k == 6 || k == 7 || k == 8 || k == 9 || k == 10 || k == 11 || k == 12 || k == 13 || k == 14 || k == 15 || k == 16 || k == 17 || k == 18 || k == 19 || k == 20 || k == 21 || k == 22 || k == 23 || k == 24 || k == 25 || k == 26 || k == 27 || k == 28 || k == 29 || k == 30 || k == 31 || k == 32 || k == 33 || k == 34 || k == 35 || k == 36 || k == 37 || k == 38 || k == 39 || k == 40 || k == 41 || k == 42 || k == 43 || k == 44 || k == 45 || k == 46 || k == 47 || k == 48 || k == 49 || k == 50 || k == 51 || k == 52 || k == 53 || k == 54 || k == 55 || k == 56 || k == 57 || k == 58 || k == 59 || k == 60 || k == 61 || k == 62 || k == 63 || k == 64 || k == 65 || k == 66 || k == 67 || k == 68 || k == 69 || k == 70 || k == 71 || k == 72 || k == 73 || k == 74 || k == 75 || k == 76 || k == 77 || k == 78 || k == 79 || k == 80 || k == 81 || k == 82 || k == 83 || k == 84 || k == 85 || k == 86 || k == 87 || k == 88 || k == 89 || k == 90 || k == 91 || k == 92 || k == 93 || k == 94 || k == 95 || k == 96 || k == 97 || k == 98 || k == 99 || k == 100 || k == 101 || k == 102 || k == 103 || k == 104 || k == 105 || k == 106 || k == 107 || k == 108 || k == 109 || k == 110 || k == 111 || k == 112 || k == 113 || k == 114 || k == 115 || k == 116 || k == 117 || k == 118 || k == 119 || k == 120 || k == 121 || k == 122 || k == 123 || k == 124 || k == 125 || k == 126 || k == 127 || k == 128 || k == 129 || k == 130 || k == 131 || k == 132 || k == 133 || k == 134 || k == 135 || k == 136 || k == 137 || k == 138 || k == 139 || k == 140 || k == 141 || k == 142 || k == 143 || k == 144 || k == 145 || k == 146 || k == 147 || k == 148 || k == 149 || k == 150 || k == 151 || k == 152 || k == 153 || k == 154 || k == 155 || k == 156 || k == 157 || k == 158 || k == 159 || k == 160 || k == 161 || k == 162 || k == 163 || k == 164 || k == 165 || k == 166 || k == 167 || k == 168 || k == 169 || k == 170 || k == 171 || k == 172 || k == 173 || k == 174 || k == 175 || k == 176 || k == 177 || k == 178 || k == 179 || k == 180);
    }
    lemma_scan_plain(t, 0, 14, None);
    assert(t[14] == '{');
    lemma_scan_plain(t, 15, 30, Some(15));
    assert(t[30] == '}');
    reveal_strlit("source_language");
    assert(t.subrange(15, 30) =~= "source_language"@);
    lemma_scan_plain(t, 31, 42, None);
    assert(t[42] == '{');
    lemma_scan_plain(t, 43, 58, Some(43));
    assert(t[58] == '}');
    reveal_strlit("target_language");
    assert(t.subrange(43, 58) =~= "target_language"@);
    lemma_scan_plain(t, 59, 95, None);
    assert(t[95] == '{');
    lemma_scan_plain(t, 96, 104, Some(96));
    assert(t[104] == '}');
    reveal_strlit("glossary");
    assert(t.subrange(96, 104) =~= "glossary"@);
    lemma_scan_plain(t, 105, 139, None);
    assert(t[139] == '{');
    lemma_scan_plain(t, 140, 147, Some(140));
    assert(t[147] == '}');
    reveal_strlit("context");
    assert(t.subrange(140, 147) =~= "context"@);
    lemma_scan_plain(t, 148, 181, None);
}

/// `zh-Hans` and `en` are language tags.
proof fn lemma_default_targets_tagged()
    ensures
        language_tag("zh-Hans"@),
        language_tag("en"@),
{
    reveal_strlit("zh-Hans");
    reveal_strlit("en");
    let z = "zh-Hans"@;
    let e = "en"@;
    assert forall|i: int| 0 <= i < z.len() implies is_ascii_alnum(#[trigger] z[i]) || z[i] == '-' by {
        assert(i == 0 || i == 1 || i == 2 || i == 3 || i == 4 || i == 5 || i == 6);
    }
    assert forall|i: int| 0 <= i < z.len() && #[trigger] z[i] == '-' implies 2 <= i && i + 1 < z.len() && z[i + 1] != '-' by {
        assert(i == 0 || i == 1 || i == 2 || i == 3 || i == 4 || i == 5 || i == 6);
    }
    assert forall|i: int| 0 <= i < z.len() && #[trigger] dash_free(z, i + 1) implies is_ascii_alpha(z[i]) && i < 8 by {
        if i >= 2 {
            assert(z[2] == '-');
        }
    }
    assert forall|i: int| 0 <= i < e.len() implies is_ascii_alnum(#[trigger] e[i]) || e[i] == '-' by {
        assert(i == 0 || i == 1);
    }
    assert forall|i: int| 0 <= i < e.len() && #[trigger] e[i] == '-' implies 2 <= i && i + 1 < e.len() && e[i + 1] != '-' by {
        assert(i == 0 || i == 1);
    }
    assert forall|i: int| 0 <= i < e.len() && #[trigger] dash_free(e, i + 1) implies is_ascii_alpha(e[i]) && i < 8 by {
        assert(i == 0 || i == 1);
    }
}

/// The shipped translation settings pass every translation rule.
pub proof fn lemma_default_translation_valid(t: TranslationConfig, profiles: Seq<ApiProfile>, live_service: Seq<char>)
    requires
        crate::config::default_translation(t),
    ensures
        translation_err(t, profiles, live_service).is_none(),
{
    lemma_default_prompt_valid();
    lemma_default_targets_tagged();
    reveal_strlit("disabled");
    reveal_strlit("automatic");
    assert("disabled"@[0] != "automatic"@[0]);
    reveal_strlit("gemini_live_translate");
    reveal_strlit("openai_realtime_translate");
    assert(crate::providers::SERVICE_GEMINI_LIVE_TRANSLATE@.len() > 0);
    assert(crate::providers::SERVICE_OPENAI_REALTIME_TRANSLATE@.len() > 0);
    assert(!live_translation_service(Seq::<char>::empty()));
    let fs = target_checks("speaker"@, t.speaker_targets@, profiles, false, Seq::<char>::empty());
    let fm = target_checks("microphone"@, t.microphone_targets@, profiles, false, Seq::<char>::empty());
    assert(fs(0).is_none());
    assert(fm(0).is_none());
    lemma_first_err_none(fs, 0, 1);
    lemma_first_err_none(fm, 0, 1);
    assert(entries_err(t.prompt.glossary@, "Translation glossary"@).is_none());
}

/// Accepted language presets number at most five; their ids are distinct
/// UUIDs; their trimmed names have 1 to 40 characters and differ ignoring
/// ASCII case; and each names a supported recognition language, translation
/// mode and OSC translation strategy. More than five presets are refused as such.
pub proof fn lemma_presets_law(presets: Seq<LanguagePreset>, profiles: Seq<ApiProfile>, live_service: Seq<char>)
    ensures
        presets.len() > 5 ==> presets_err(presets, profiles, live_service) == Some(
            "Language presets cannot exceed 5 entries"@,
        ),
        presets_err(presets, profiles, live_service).is_none() ==> {
            &&& presets.len() <= 5
            &&& forall|i: int| 0 <= i < presets.len() ==> uuid_text(#[trigger] presets[i].id@)
            &&& forall|i: int, j: int|
                0 <= i < j < presets.len() ==> #[trigger] presets[i].id@ != #[trigger] presets[j].id@
            &&& forall|i: int|
                0 <= i < presets.len() ==> 1 <= #[trigger] trim(presets[i].name@).len() <= 40
            &&& forall|i: int, j: int|
                0 <= i < j < presets.len() ==> ascii_lower(trim(#[trigger] presets[i].name@)) != ascii_lower(
                    trim(#[trigger] presets[j].name@),
                )
            &&& forall|i: int|
                0 <= i < presets.len() ==> str_views(asr_language_list()).contains(
                    #[trigger] presets[i].recognition_language@,
                )
            &&& forall|i: int| 0 <= i < presets.len() ==> translation_mode(#[trigger] presets[i].translation_mode@)
            &&& forall|i: int|
                0 <= i < presets.len() ==> {
                    let s = #[trigger] presets[i].osc_translation_strategy@;
                    s == "preferred_only"@ || s == "round_robin"@ || s == "all_languages"@
                }
        },
{
    if presets_err(presets, profiles, live_service).is_none() {
        let f = preset_checks(presets, profiles, live_service);
        crate::rules::lemma_first_err_each(f, 0, presets.len() as int);
        assert forall|i: int| 0 <= i < presets.len() implies uuid_text(#[trigger] presets[i].id@) by {
            assert(f(i).is_none());
        }
        assert forall|i: int, j: int| 0 <= i < j < presets.len() implies #[trigger] presets[i].id@
            != #[trigger] presets[j].id@ by {
            assert(f(j).is_none());
        }
        assert forall|i: int| 0 <= i < presets.len() implies 1 <= #[trigger] trim(presets[i].name@).len()
            <= 40 by {
            assert(f(i).is_none());
        }
        assert forall|i: int, j: int| 0 <= i < j < presets.len() implies ascii_lower(
            trim(#[trigger] presets[i].name@),
        ) != ascii_lower(trim(#[trigger] presets[j].name@)) by {
            assert(f(j).is_none());
        }
        assert forall|i: int| 0 <= i < presets.len() implies str_views(asr_language_list()).contains(
            #[trigger] presets[i].recognition_language@,
        ) by {
            assert(f(i).is_none());
        }
        assert forall|i: int| 0 <= i < presets.len() implies translation_mode(
            #[trigger] presets[i].translation_mode@,
        ) by {
            assert(f(i).is_none());
        }
        assert forall|i: int| 0 <= i < presets.len() implies {
            let s = #[trigger] presets[i].osc_translation_strategy@;
            s == "preferred_only"@ || s == "round_robin"@ || s == "all_languages"@
        } by {
            assert(f(i).is_none());
        }
    }
}

/// Whether a variable is open when the scan of `t` reaches position `j`,
/// and where its name begins.
pub open spec fn open_at(t: Seq<char>, j: int) -> Option<int>
    decreases j,
{
    if j <= 0 {
        None
    } else if t[j - 1] == '{' {
        Some(j)
    } else if t[j - 1] == '}' {
        None
    } else {
        open_at(t, j - 1)
    }
}

proof fn lemma_scan_reaches(t: Seq<char>, j: int)
    requires
        prompt_variables_err(t).is_none(),
        0 <= j <= t.len(),
    ensures
        scan_prompt(t, j, open_at(t, j)).is_none(),
    decreases j,
{
    if j > 0 {
        lemma_scan_reaches(t, j - 1);
    }
}

proof fn lemma_scan_closes(t: Seq<char>, m: int, s: int)
    requires
        0 <= m <= t.len(),
        scan_prompt(t, m, Some(s)).is_none(),
    ensures
        exists|k: int|
            m <= k < t.len() && t[k] == '}' && (forall|x: int| m <= x < k ==> t[x] != '{' && t[x] != '}')
                && prompt_variable(#[trigger] t.subrange(s, k)),
    decreases t.len() - m,
{
    if t[m] == '}' {
        assert(prompt_variable(t.subrange(s, m)));
    } else {
        lemma_scan_closes(t, m + 1, s);
        let k = choose|k: int|
            m + 1 <= k < t.len() && t[k] == '}' && (forall|x: int| m + 1 <= x < k ==> t[x] != '{' && t[x] != '}')
                && prompt_variable(#[trigger] t.subrange(s, k));
        assert(prompt_variable(t.subrange(s, k)));
    }
}

/// In an accepted prompt every `{` opens a known variable: a `}` follows with
/// no brace between, and the text between names one of the variables.
pub proof fn lemma_prompt_variables_closed(t: Seq<char>, j: int)
    requires
        prompt_variables_err(t).is_none(),
        0 <= j < t.len(),
        t[j] == '{',
    ensures
        exists|k: int|
            j < k < t.len() && t[k] == '}' && (forall|x: int| j < x < k ==> t[x] != '{' && t[x] != '}')
                && prompt_variable(#[trigger] t.subrange(j + 1, k)),
{
    lemma_scan_reaches(t, j);
    assert(open_at(t, j).is_none());
    lemma_scan_closes(t, j + 1, j + 1);
}

/// In an accepted prompt every `}` closes a variable opened by a `{` before
/// it, with no brace between.
pub proof fn lemma_prompt_braces_matched(t: Seq<char>, k: int)
    requires
        prompt_variables_err(t).is_none(),
        0 <= k < t.len(),
        t[k] == '}',
    ensures
        exists|j: int| 0 <= j < k && #[trigger] t[j] == '{' && (forall|x: int| j < x < k ==> t[x] != '{' && t[x] != '}'),
{
    lemma_scan_reaches(t, k);
    lemma_open_at_brace(t, k);
}

proof fn lemma_open_at_brace(t: Seq<char>, k: int)
    requires
        0 <= k <= t.len(),
        open_at(t, k) is Some,
    ensures
        exists|j: int| 0 <= j < k && #[trigger] t[j] == '{' && (forall|x: int| j < x < k ==> t[x] != '{' && t[x] != '}'),
    decreases k,
{
    if t[k - 1] != '{' {
        lemma_open_at_brace(t, k - 1);
        let j = choose|j: int| 0 <= j < k - 1 && #[trigger] t[j] == '{' && (forall|x: int| j < x < k - 1 ==> t[x] != '{' && t[x] != '}');
        assert(t[j] == '{');
    } else {
        assert(t[k - 1] == '{');
    }
}


/// What is wrong at position `i` of a prompt, given the variable open when
/// the scan reaches it: a `{` inside a variable, a `}` with none open, or a
/// `}` closing an unknown name.
pub open spec fn brace_problem(t: Seq<char>, i: int) -> Option<Seq<char>> {
    if t[i] == '{' {
        if open_at(t, i) is Some {
            Some("Translation system prompt contains a nested variable"@)
        } else {
            None
        }
    } else if t[i] == '}' {
        match open_at(t, i) {
            None => Some("Translation system prompt contains an unmatched closing brace"@),
            Some(s) => if prompt_variable(t.subrange(s, i)) {
                None
            } else {
                Some("Unsupported translation prompt variable: {"@ + t.subrange(s, i) + "}"@)
            },
        }
    } else {
        None
    }
}

/// The first problem from position `i` on; past the last, a variable still
/// open.
pub open spec fn first_problem(t: Seq<char>, i: int) -> Option<Seq<char>>
    decreases t.len() - i,
{
    if i >= t.len() {
        if open_at(t, t.len() as int) is Some {
            Some("Translation system prompt contains an unclosed variable"@)
        } else {
            None
        }
    } else if brace_problem(t, i) is Some {
        brace_problem(t, i)
    } else {
        first_problem(t, i + 1)
    }
}

proof fn lemma_scan_is_first_problem(t: Seq<char>, i: int)
    requires
        0 <= i <= t.len(),
    ensures
        scan_prompt(t, i, open_at(t, i)) == first_problem(t, i),
    decreases t.len() - i,
{
    if i < t.len() {
        lemma_scan_is_first_problem(t, i + 1);
    }
}

/// A prompt template gets the error of its first misplaced brace: a `{`
/// inside a variable is a nested variable, a `}` with no variable open is
/// an unmatched closing brace, and a variable whose name is not one of the
/// four is unsupported; with no misplaced brace, a variable still open at
/// the end is unclosed, and otherwise the template is accepted.
pub proof fn lemma_prompt_error_is_first_problem(t: Seq<char>)
    ensures
        prompt_variables_err(t) == first_problem(t, 0),
{
    lemma_scan_is_first_problem(t, 0);
}

proof fn lemma_open_at_some(t: Seq<char>, i: int)
    requires
        0 <= i <= t.len(),
        open_at(t, i) is Some,
    ensures
        1 <= open_at(t, i)->0 <= i,
        t[open_at(t, i)->0 - 1] == '{',
        forall|x: int| open_at(t, i)->0 <= x < i ==> t[x] != '{' && t[x] != '}',
    decreases i,
{
    if t[i - 1] != '{' && t[i - 1] != '}' {
        lemma_open_at_some(t, i - 1);
    }
}

proof fn lemma_open_at_from(t: Seq<char>, j: int, i: int)
    requires
        0 <= j < i <= t.len(),
        t[j] == '{',
        forall|x: int| j < x < i ==> t[x] != '{' && t[x] != '}',
    ensures
        open_at(t, i) == Some(j + 1),
    decreases i,
{
    if i - 1 > j {
        lemma_open_at_from(t, j, i - 1);
    }
}

proof fn lemma_no_problem_from(t: Seq<char>, i: int)
    requires
        0 <= i <= t.len(),
        forall|x: int| i <= x < t.len() ==> (#[trigger] brace_problem(t, x)) is None,
        open_at(t, t.len() as int) is None,
    ensures
        first_problem(t, i) is None,
    decreases t.len() - i,
{
    if i < t.len() {
        lemma_no_problem_from(t, i + 1);
    }
}

/// A prompt template is accepted exactly when every `{` opens one of the
/// four variables, closed by the next `}` with no brace between, and every
/// `}` closes such a variable.
pub proof fn lemma_prompt_accepted_iff(t: Seq<char>)
    ensures
        prompt_variables_err(t).is_none() <==> ((forall|j: int|
            0 <= j < t.len() && #[trigger] t[j] == '{' ==> exists|k: int|
                j < k < t.len() && t[k] == '}' && (forall|x: int| j < x < k ==> t[x] != '{' && t[x] != '}')
                    && prompt_variable(#[trigger] t.subrange(j + 1, k))) && (forall|k: int|
            0 <= k < t.len() && #[trigger] t[k] == '}' ==> exists|j: int|
                0 <= j < k && #[trigger] t[j] == '{' && (forall|x: int| j < x < k ==> t[x] != '{' && t[x] != '}'))),
{
    let opened = forall|j: int|
        0 <= j < t.len() && #[trigger] t[j] == '{' ==> exists|k: int|
            j < k < t.len() && t[k] == '}' && (forall|x: int| j < x < k ==> t[x] != '{' && t[x] != '}')
                && prompt_variable(#[trigger] t.subrange(j + 1, k));
    let closed = forall|k: int|
        0 <= k < t.len() && #[trigger] t[k] == '}' ==> exists|j: int|
            0 <= j < k && #[trigger] t[j] == '{' && (forall|x: int| j < x < k ==> t[x] != '{' && t[x] != '}');
    if prompt_variables_err(t).is_none() {
        assert forall|j: int| 0 <= j < t.len() && #[trigger] t[j] == '{' implies exists|k: int|
            j < k < t.len() && t[k] == '}' && (forall|x: int| j < x < k ==> t[x] != '{' && t[x] != '}')
                && prompt_variable(#[trigger] t.subrange(j + 1, k)) by {
            lemma_prompt_variables_closed(t, j);
        }
        assert forall|k: int| 0 <= k < t.len() && #[trigger] t[k] == '}' implies exists|j: int|
            0 <= j < k && #[trigger] t[j] == '{' && (forall|x: int| j < x < k ==> t[x] != '{' && t[x] != '}') by {
            lemma_prompt_braces_matched(t, k);
        }
    }
    if opened && closed {
        assert forall|i: int| 0 <= i < t.len() implies (#[trigger] brace_problem(t, i)) is None by {
            if t[i] == '{' {
                if open_at(t, i) is Some {
                    lemma_open_at_some(t, i);
                    let j = open_at(t, i)->0 - 1;
                    let k = choose|k: int|
                        j < k < t.len() && t[k] == '}' && (forall|x: int| j < x < k ==> t[x] != '{' && t[x] != '}')
                            && prompt_variable(#[trigger] t.subrange(j + 1, k));
                    if k < i {
                        assert(t[k] != '}');
                    } else {
                        assert(t[i] != '{');
                    }
                }
            } else if t[i] == '}' {
                let j = choose|j: int|
                    0 <= j < i && #[trigger] t[j] == '{' && (forall|x: int| j < x < i ==> t[x] != '{' && t[x] != '}');
                lemma_open_at_from(t, j, i);
                let k = choose|k: int|
                    j < k < t.len() && t[k] == '}' && (forall|x: int| j < x < k ==> t[x] != '{' && t[x] != '}')
                        && prompt_variable(#[trigger] t.subrange(j + 1, k));
                if k < i {
                    assert(t[k] != '}');
                } else if k > i {
                    assert(t[i] != '}');
                }
            }
        }
        if open_at(t, t.len() as int) is Some {
            lemma_open_at_some(t, t.len() as int);
            let j = open_at(t, t.len() as int)->0 - 1;
            let k = choose|k: int|
                j < k < t.len() && t[k] == '}' && (forall|x: int| j < x < k ==> t[x] != '{' && t[x] != '}')
                    && prompt_variable(#[trigger] t.subrange(j + 1, k));
            assert(t[k] != '}');
        }
        lemma_no_problem_from(t, 0);
        lemma_prompt_error_is_first_problem(t);
    }
}

} // verus!
