//! Data exchanged over the local API, and the limits on Anki card requests.
use vstd::prelude::*;

use crate::config::{
    AnkiConfig, AsrConfig, AudioConfig, DictionaryConfig, ExternalApiConfig, GlossaryConfig,
    LanguagePreset, OscConfig, ServerConfig, StorageConfig, TranslationConfig, VadConfig,
    VrOverlayConfig, VrcxConfig,
};
use crate::rules::{err_of, then};
use crate::text::{char_count, concat, concat3, decimal, decimal_string};

verus! {

/// The source sentences one translation covers when it was made for several
/// subtitles together.
#[derive(Clone, Debug)]
pub struct TranslationSourceGroup {
    pub subtitle_ids: Vec<i64>,
    pub text: String,
}

/// A recognized subtitle, as presentation reads it.
#[derive(Clone, Debug)]
pub struct Subtitle {
    pub id: Option<i64>,
    pub conversation_id: Option<String>,
    pub text: String,
    pub language: Option<String>,
    pub source: String,
    pub created_at: String,
    pub translations: Vec<SubtitleTranslation>,
}

/// A stored translation of a subtitle.
#[derive(Clone, Debug)]
pub struct SubtitleTranslation {
    pub source_group: Option<TranslationSourceGroup>,
    pub text: String,
    pub source_language: Option<String>,
    pub target_language: String,
    pub provider: String,
    pub model: Option<String>,
    pub created_at: String,
}

/// An audio device as the device listing reports it.
#[derive(Clone, Debug)]
pub struct AudioDevice {
    pub id: i64,
    pub name: String,
    pub is_default: bool,
    pub is_loopback: bool,
    pub sample_rate: u32,
    pub channels: u32,
}

/// A dictionary entry.
#[derive(Clone, Debug)]
pub struct DictionaryEntry {
    pub term: String,
    pub language: String,
    pub definition: String,
    pub reading: Option<String>,
    pub dictionary: Option<String>,
}

/// An imported dictionary.
#[derive(Clone, Debug)]
pub struct DictionarySource {
    pub id: i64,
    pub title: String,
    pub revision: String,
    pub source_language: String,
    pub target_language: Option<String>,
    pub entry_count: i64,
    pub imported_at: String,
}

/// The body of a settings update: every section of the configuration.
#[derive(Clone, Debug)]
pub struct SettingsUpdate {
    pub schema_version: u32,
    pub server: ServerConfig,
    pub storage: StorageConfig,
    pub audio: AudioConfig,
    pub vad: VadConfig,
    pub asr: AsrConfig,
    pub dictionary: DictionaryConfig,
    pub glossary: GlossaryConfig,
    pub translation: TranslationConfig,
    pub language_presets: Vec<LanguagePreset>,
    pub osc: OscConfig,
    pub anki: AnkiConfig,
    pub external_api: ExternalApiConfig,
    pub vrcx: VrcxConfig,
    pub vr_overlay: VrOverlayConfig,
}

/// The labels an Anki card uses for its fields.
#[derive(Clone, Debug)]
pub struct CardLabels {
    pub definition: String,
    pub context: String,
}

/// A request to create an Anki card.
#[derive(Clone, Debug)]
pub struct CardRequest {
    pub term: String,
    pub definition: String,
    pub context: String,
    pub reading: Option<String>,
    pub dictionary: Option<String>,
    pub language: Option<String>,
    pub labels: Option<CardLabels>,
}

/// A display snapshot of a live translation; it does not claim sentence alignment.
#[derive(Clone, Debug, PartialEq, Eq)]
pub struct LiveTranslation {
    pub utterance_id: String,
    pub text: String,
    pub language: Option<String>,
    pub translation: String,
    pub target_language: String,
}

/// Why a text field's length (in characters) is outside `minimum..=maximum`.
pub open spec fn text_err(label: Seq<char>, value: Seq<char>, minimum: nat, maximum: nat) -> Option<
    Seq<char>,
> {
    if minimum <= value.len() <= maximum {
        None
    } else {
        Some(
            label + " length must be between "@ + decimal(minimum) + " and "@ + decimal(maximum)
                + " characters"@,
        )
    }
}

/// Why an optional text field is longer than `maximum` characters.
pub open spec fn optional_text_err(label: Seq<char>, value: Option<Seq<char>>, maximum: nat) -> Option<
    Seq<char>,
> {
    match value {
        Some(v) if v.len() > maximum => Some(
            label + " cannot exceed "@ + decimal(maximum) + " characters"@,
        ),
        _ => None,
    }
}

fn validate_text(label: &str, value: &str, minimum: usize, maximum: usize) -> (r: Result<(), String>)
    ensures
        err_of(r) == text_err(label@, value@, minimum as nat, maximum as nat),
{
    let n = char_count(value);
    if !(minimum <= n && n <= maximum) {
        let mut e = concat(label, " length must be between ");
        crate::text::push_str(&mut e, decimal_string(minimum as u64).as_str());
        crate::text::push_str(&mut e, " and ");
        crate::text::push_str(&mut e, decimal_string(maximum as u64).as_str());
        crate::text::push_str(&mut e, " characters");
        return Err(e);
    }
    Ok(())
}

fn validate_optional_text(label: &str, value: &Option<String>, maximum: usize) -> (r: Result<
    (),
    String,
>)
    ensures
        err_of(r) == optional_text_err(label@, opt_text(*value), maximum as nat),
{
    if let Some(v) = value {
        if char_count(v.as_str()) > maximum {
            let head = concat(label, " cannot exceed ");
            let n = decimal_string(maximum as u64);
            return Err(concat3(head.as_str(), n.as_str(), " characters"));
        }
    }
    Ok(())
}

/// The text an optional string holds.
pub open spec fn opt_text(o: Option<String>) -> Option<Seq<char>> {
    match o {
        Some(s) => Some(s@),
        None => None,
    }
}

/// Why a card request is not acceptable: the first field outside its limits,
/// in the order term, definition, context, reading, dictionary, language and
/// the two labels.
pub open spec fn card_err(c: CardRequest) -> Option<Seq<char>> {
    then(
        text_err("term"@, c.term@, 1, 500),
        then(
            text_err("definition"@, c.definition@, 1, 20000),
            then(
                text_err("context"@, c.context@, 0, 20000),
                then(
                    optional_text_err("reading"@, opt_text(c.reading), 500),
                    then(
                        optional_text_err("dictionary"@, opt_text(c.dictionary), 500),
                        then(
                            optional_text_err("language"@, opt_text(c.language), 20),
                            match c.labels {
                                Some(l) => then(
                                    text_err("definition label"@, l.definition@, 1, 100),
                                    text_err("context label"@, l.context@, 1, 100),
                                ),
                                None => None,
                            },
                        ),
                    ),
                ),
            ),
        ),
    )
}

impl CardRequest {
    /// Checks the length of every field of the card, in characters.
    pub fn validate(&self) -> (r: Result<(), String>)
        ensures
            err_of(r) == card_err(*self),
    {
        validate_text("term", self.term.as_str(), 1, 500)?;
        validate_text("definition", self.definition.as_str(), 1, 20000)?;
        validate_text("context", self.context.as_str(), 0, 20000)?;
        validate_optional_text("reading", &self.reading, 500)?;
        validate_optional_text("dictionary", &self.dictionary, 500)?;
        validate_optional_text("language", &self.language, 20)?;
        if let Some(labels) = &self.labels {
            validate_text("definition label", labels.definition.as_str(), 1, 100)?;
            validate_text("context label", labels.context.as_str(), 1, 100)?;
        }
        Ok(())
    }
}

} // verus!
