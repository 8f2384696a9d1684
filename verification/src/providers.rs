//! The catalog of API providers, their recognition services and capabilities.
use vstd::prelude::*;

use crate::config::{ApiAuthMode, ApiProfile, HttpHeaderConfig};
use crate::ip::{ip_loopback, parse_ip_loopback};
use crate::rules::{err_of, first_err, lemma_first_err_at, lemma_first_err_none, then};
use crate::text::{
    ascii_lower, ascii_lowercase, char_count, concat, contains_control, has_control,
    is_ascii_alnum, is_ascii_alpha, is_blank, str_eq, trim,
};
use crate::web_url::{opt_parts, parse_url, url_parse, UrlParts, UrlView};

verus! {

pub const ALIBABA_PROVIDER: &'static str = "alibaba_cloud";
pub const ALIBABA_TOKEN_PLAN_PROVIDER: &'static str = "alibaba_token_plan";
pub const OPENAI_PROVIDER: &'static str = "openai";
pub const GEMINI_PROVIDER: &'static str = "gemini";
pub const GROQ_PROVIDER: &'static str = "groq";
pub const DEEPL_PROVIDER: &'static str = "deepl";
pub const OLLAMA_PROVIDER: &'static str = "ollama";
pub const OPENAI_COMPATIBLE_PROVIDER: &'static str = "openai_compatible";

pub const CAPABILITY_SPEECH_TO_TEXT: &'static str = "speech_to_text";
pub const CAPABILITY_TEXT_GENERATION: &'static str = "text_generation";
pub const CAPABILITY_TEXT_TRANSLATION: &'static str = "text_translation";

pub const SERVICE_QWEN_REALTIME: &'static str = "qwen_realtime";
pub const SERVICE_FUN_ASR_REALTIME: &'static str = "fun_asr_realtime";
pub const SERVICE_TOKEN_PLAN_REALTIME: &'static str = "token_plan_realtime";
pub const SERVICE_OPENAI_REALTIME: &'static str = "openai_realtime";
pub const SERVICE_OPENAI_REALTIME_TRANSLATE: &'static str = "openai_realtime_translate";
pub const SERVICE_GROQ_TRANSCRIPTION: &'static str = "groq_transcription";
pub const SERVICE_GEMINI_TRANSCRIBE: &'static str = "gemini_transcribe";
pub const SERVICE_GEMINI_LIVE_TRANSLATE: &'static str = "gemini_live_translate";


/// The API providers the application knows.
#[derive(Clone, Copy, Debug, PartialEq, Eq, Structural)]
pub enum ProviderKind {
    AlibabaCloud,
    AlibabaTokenPlan,
    OpenAi,
    Gemini,
    Groq,
    DeepL,
    Ollama,
    OpenAiCompatible,
}

/// The recognition services the providers offer.
#[derive(Clone, Copy, Debug, PartialEq, Eq, Structural)]
pub enum ServiceKind {
    QwenRealtime,
    FunAsrRealtime,
    TokenPlanRealtime,
    OpenAiRealtime,
    OpenAiRealtimeTranslate,
    GroqTranscription,
    GeminiTranscribe,
    GeminiLiveTranslate,
}

/// What an API profile can be used for.
#[derive(Clone, Copy, Debug, PartialEq, Eq, Structural)]
pub enum CapabilityKind {
    SpeechToText,
    TextGeneration,
    TextTranslation,
}

/// How a recognition service receives audio.
#[derive(Clone, Copy, Debug, PartialEq, Eq, Structural)]
pub enum RecognitionTransport {
    /// A websocket session that streams audio and transcripts.
    RealtimeStream,
    /// One request per finished utterance.
    UtteranceUpload,
}

/// The client code that speaks a service's protocol.
#[derive(Clone, Copy, Debug, PartialEq, Eq, Structural)]
pub enum ServiceAdapter {
    QwenRealtime,
    AlibabaTokenPlanRealtime,
    FunAsrRealtime,
    OpenAiRealtime,
    OpenAiRealtimeTranslate,
    GroqTranscription,
    GeminiTranscribe,
    GeminiLiveTranslate,
}

pub open spec fn provider_id(p: ProviderKind) -> Seq<char> {
    match p {
        ProviderKind::AlibabaCloud => ALIBABA_PROVIDER@,
        ProviderKind::AlibabaTokenPlan => ALIBABA_TOKEN_PLAN_PROVIDER@,
        ProviderKind::OpenAi => OPENAI_PROVIDER@,
        ProviderKind::Gemini => GEMINI_PROVIDER@,
        ProviderKind::Groq => GROQ_PROVIDER@,
        ProviderKind::DeepL => DEEPL_PROVIDER@,
        ProviderKind::Ollama => OLLAMA_PROVIDER@,
        ProviderKind::OpenAiCompatible => OPENAI_COMPATIBLE_PROVIDER@,
    }
}

/// The provider an id names.
pub open spec fn provider_from(s: Seq<char>) -> Option<ProviderKind> {
    if s == ALIBABA_PROVIDER@ {
        Some(ProviderKind::AlibabaCloud)
    } else if s == ALIBABA_TOKEN_PLAN_PROVIDER@ {
        Some(ProviderKind::AlibabaTokenPlan)
    } else if s == OPENAI_PROVIDER@ {
        Some(ProviderKind::OpenAi)
    } else if s == GEMINI_PROVIDER@ {
        Some(ProviderKind::Gemini)
    } else if s == GROQ_PROVIDER@ {
        Some(ProviderKind::Groq)
    } else if s == DEEPL_PROVIDER@ {
        Some(ProviderKind::DeepL)
    } else if s == OLLAMA_PROVIDER@ {
        Some(ProviderKind::Ollama)
    } else if s == OPENAI_COMPATIBLE_PROVIDER@ {
        Some(ProviderKind::OpenAiCompatible)
    } else {
        None
    }
}

pub open spec fn service_id(k: ServiceKind) -> Seq<char> {
    match k {
        ServiceKind::QwenRealtime => SERVICE_QWEN_REALTIME@,
        ServiceKind::FunAsrRealtime => SERVICE_FUN_ASR_REALTIME@,
        ServiceKind::TokenPlanRealtime => SERVICE_TOKEN_PLAN_REALTIME@,
        ServiceKind::OpenAiRealtime => SERVICE_OPENAI_REALTIME@,
        ServiceKind::OpenAiRealtimeTranslate => SERVICE_OPENAI_REALTIME_TRANSLATE@,
        ServiceKind::GroqTranscription => SERVICE_GROQ_TRANSCRIPTION@,
        ServiceKind::GeminiTranscribe => SERVICE_GEMINI_TRANSCRIBE@,
        ServiceKind::GeminiLiveTranslate => SERVICE_GEMINI_LIVE_TRANSLATE@,
    }
}

/// The recognition service an id names.
pub open spec fn service_from(s: Seq<char>) -> Option<ServiceKind> {
    if s == SERVICE_QWEN_REALTIME@ {
        Some(ServiceKind::QwenRealtime)
    } else if s == SERVICE_FUN_ASR_REALTIME@ {
        Some(ServiceKind::FunAsrRealtime)
    } else if s == SERVICE_TOKEN_PLAN_REALTIME@ {
        Some(ServiceKind::TokenPlanRealtime)
    } else if s == SERVICE_OPENAI_REALTIME@ {
        Some(ServiceKind::OpenAiRealtime)
    } else if s == SERVICE_OPENAI_REALTIME_TRANSLATE@ {
        Some(ServiceKind::OpenAiRealtimeTranslate)
    } else if s == SERVICE_GROQ_TRANSCRIPTION@ {
        Some(ServiceKind::GroqTranscription)
    } else if s == SERVICE_GEMINI_TRANSCRIBE@ {
        Some(ServiceKind::GeminiTranscribe)
    } else if s == SERVICE_GEMINI_LIVE_TRANSLATE@ {
        Some(ServiceKind::GeminiLiveTranslate)
    } else {
        None
    }
}

/// The capability a name denotes.
pub open spec fn capability_from(s: Seq<char>) -> Option<CapabilityKind> {
    if s == CAPABILITY_SPEECH_TO_TEXT@ {
        Some(CapabilityKind::SpeechToText)
    } else if s == CAPABILITY_TEXT_GENERATION@ {
        Some(CapabilityKind::TextGeneration)
    } else if s == CAPABILITY_TEXT_TRANSLATION@ {
        Some(CapabilityKind::TextTranslation)
    } else {
        None
    }
}

/// The provider that operates a service.
pub open spec fn service_provider(k: ServiceKind) -> ProviderKind {
    match k {
        ServiceKind::QwenRealtime | ServiceKind::FunAsrRealtime => ProviderKind::AlibabaCloud,
        ServiceKind::TokenPlanRealtime => ProviderKind::AlibabaTokenPlan,
        ServiceKind::OpenAiRealtime | ServiceKind::OpenAiRealtimeTranslate => ProviderKind::OpenAi,
        ServiceKind::GroqTranscription => ProviderKind::Groq,
        ServiceKind::GeminiTranscribe | ServiceKind::GeminiLiveTranslate => ProviderKind::Gemini,
    }
}

/// The services of a provider, in catalog order.
pub open spec fn provider_services(p: ProviderKind) -> Seq<ServiceKind> {
    match p {
        ProviderKind::AlibabaCloud => seq![ServiceKind::QwenRealtime, ServiceKind::FunAsrRealtime],
        ProviderKind::AlibabaTokenPlan => seq![ServiceKind::TokenPlanRealtime],
        ProviderKind::OpenAi => seq![
            ServiceKind::OpenAiRealtime,
            ServiceKind::OpenAiRealtimeTranslate,
        ],
        ProviderKind::Groq => seq![ServiceKind::GroqTranscription],
        ProviderKind::Gemini => seq![
            ServiceKind::GeminiTranscribe,
            ServiceKind::GeminiLiveTranslate,
        ],
        _ => Seq::empty(),
    }
}

pub open spec fn service_transport(k: ServiceKind) -> RecognitionTransport {
    match k {
        ServiceKind::GroqTranscription => RecognitionTransport::UtteranceUpload,
        _ => RecognitionTransport::RealtimeStream,
    }
}

pub open spec fn service_adapter(k: ServiceKind) -> ServiceAdapter {
    match k {
        ServiceKind::QwenRealtime => ServiceAdapter::QwenRealtime,
        ServiceKind::FunAsrRealtime => ServiceAdapter::FunAsrRealtime,
        ServiceKind::TokenPlanRealtime => ServiceAdapter::AlibabaTokenPlanRealtime,
        ServiceKind::OpenAiRealtime => ServiceAdapter::OpenAiRealtime,
        ServiceKind::OpenAiRealtimeTranslate => ServiceAdapter::OpenAiRealtimeTranslate,
        ServiceKind::GroqTranscription => ServiceAdapter::GroqTranscription,
        ServiceKind::GeminiTranscribe => ServiceAdapter::GeminiTranscribe,
        ServiceKind::GeminiLiveTranslate => ServiceAdapter::GeminiLiveTranslate,
    }
}

/// Longest recognition context a service accepts, or `None` when it takes no context.
pub open spec fn service_context_max(k: ServiceKind) -> Option<nat> {
    match k {
        ServiceKind::QwenRealtime => Some(2000),
        ServiceKind::FunAsrRealtime => Some(400),
        ServiceKind::OpenAiRealtime => Some(1000),
        _ => None,
    }
}

/// Whether a provider offers a capability.
pub open spec fn provider_supports(p: ProviderKind, c: CapabilityKind) -> bool {
    match p {
        ProviderKind::AlibabaTokenPlan => c == CapabilityKind::SpeechToText,
        ProviderKind::DeepL => c == CapabilityKind::TextTranslation,
        ProviderKind::Ollama | ProviderKind::OpenAiCompatible => c != CapabilityKind::SpeechToText,
        _ => true,
    }
}

/// Whether a provider translates through a language model that must be named.
pub open spec fn provider_uses_models(p: ProviderKind) -> bool {
    p != ProviderKind::DeepL && p != ProviderKind::AlibabaTokenPlan
}

/// Whether a provider talks to a user-chosen endpoint.
pub open spec fn provider_takes_base_url(p: ProviderKind) -> bool {
    p == ProviderKind::Ollama || p == ProviderKind::OpenAiCompatible
}

/// Whether a service translates speech as it recognizes it.
pub open spec fn live_translation_service(s: Seq<char>) -> bool {
    s == SERVICE_GEMINI_LIVE_TRANSLATE@ || s == SERVICE_OPENAI_REALTIME_TRANSLATE@
}

/// The provider with the given id.
pub fn parse_provider(s: &str) -> (r: Option<ProviderKind>)
    ensures
        r == provider_from(s@),
{
    if str_eq(s, ALIBABA_PROVIDER) {
        Some(ProviderKind::AlibabaCloud)
    } else if str_eq(s, ALIBABA_TOKEN_PLAN_PROVIDER) {
        Some(ProviderKind::AlibabaTokenPlan)
    } else if str_eq(s, OPENAI_PROVIDER) {
        Some(ProviderKind::OpenAi)
    } else if str_eq(s, GEMINI_PROVIDER) {
        Some(ProviderKind::Gemini)
    } else if str_eq(s, GROQ_PROVIDER) {
        Some(ProviderKind::Groq)
    } else if str_eq(s, DEEPL_PROVIDER) {
        Some(ProviderKind::DeepL)
    } else if str_eq(s, OLLAMA_PROVIDER) {
        Some(ProviderKind::Ollama)
    } else if str_eq(s, OPENAI_COMPATIBLE_PROVIDER) {
        Some(ProviderKind::OpenAiCompatible)
    } else {
        None
    }
}

/// The recognition service with the given id.
pub fn recognition_service(s: &str) -> (r: Option<ServiceKind>)
    ensures
        r == service_from(s@),
{
    if str_eq(s, SERVICE_QWEN_REALTIME) {
        Some(ServiceKind::QwenRealtime)
    } else if str_eq(s, SERVICE_FUN_ASR_REALTIME) {
        Some(ServiceKind::FunAsrRealtime)
    } else if str_eq(s, SERVICE_TOKEN_PLAN_REALTIME) {
        Some(ServiceKind::TokenPlanRealtime)
    } else if str_eq(s, SERVICE_OPENAI_REALTIME) {
        Some(ServiceKind::OpenAiRealtime)
    } else if str_eq(s, SERVICE_OPENAI_REALTIME_TRANSLATE) {
        Some(ServiceKind::OpenAiRealtimeTranslate)
    } else if str_eq(s, SERVICE_GROQ_TRANSCRIPTION) {
        Some(ServiceKind::GroqTranscription)
    } else if str_eq(s, SERVICE_GEMINI_TRANSCRIBE) {
        Some(ServiceKind::GeminiTranscribe)
    } else if str_eq(s, SERVICE_GEMINI_LIVE_TRANSLATE) {
        Some(ServiceKind::GeminiLiveTranslate)
    } else {
        None
    }
}

/// The capability with the given name.
pub fn parse_capability(s: &str) -> (r: Option<CapabilityKind>)
    ensures
        r == capability_from(s@),
{
    if str_eq(s, CAPABILITY_SPEECH_TO_TEXT) {
        Some(CapabilityKind::SpeechToText)
    } else if str_eq(s, CAPABILITY_TEXT_GENERATION) {
        Some(CapabilityKind::TextGeneration)
    } else if str_eq(s, CAPABILITY_TEXT_TRANSLATION) {
        Some(CapabilityKind::TextTranslation)
    } else {
        None
    }
}

impl ServiceKind {
    /// The service's id.
    pub fn id(self) -> (r: &'static str)
        ensures
            r@ == service_id(self),
    {
        match self {
            ServiceKind::QwenRealtime => SERVICE_QWEN_REALTIME,
            ServiceKind::FunAsrRealtime => SERVICE_FUN_ASR_REALTIME,
            ServiceKind::TokenPlanRealtime => SERVICE_TOKEN_PLAN_REALTIME,
            ServiceKind::OpenAiRealtime => SERVICE_OPENAI_REALTIME,
            ServiceKind::OpenAiRealtimeTranslate => SERVICE_OPENAI_REALTIME_TRANSLATE,
            ServiceKind::GroqTranscription => SERVICE_GROQ_TRANSCRIPTION,
            ServiceKind::GeminiTranscribe => SERVICE_GEMINI_TRANSCRIBE,
            ServiceKind::GeminiLiveTranslate => SERVICE_GEMINI_LIVE_TRANSLATE,
        }
    }

    pub fn provider(self) -> (r: ProviderKind)
        ensures
            r == service_provider(self),
    {
        match self {
            ServiceKind::QwenRealtime | ServiceKind::FunAsrRealtime => ProviderKind::AlibabaCloud,
            ServiceKind::TokenPlanRealtime => ProviderKind::AlibabaTokenPlan,
            ServiceKind::OpenAiRealtime | ServiceKind::OpenAiRealtimeTranslate => ProviderKind::OpenAi,
            ServiceKind::GroqTranscription => ProviderKind::Groq,
            ServiceKind::GeminiTranscribe | ServiceKind::GeminiLiveTranslate => ProviderKind::Gemini,
        }
    }

    pub fn recognition_transport(self) -> (r: RecognitionTransport)
        ensures
            r == service_transport(self),
    {
        match self {
            ServiceKind::GroqTranscription => RecognitionTransport::UtteranceUpload,
            _ => RecognitionTransport::RealtimeStream,
        }
    }

    pub fn adapter(self) -> (r: ServiceAdapter)
        ensures
            r == service_adapter(self),
    {
        match self {
            ServiceKind::QwenRealtime => ServiceAdapter::QwenRealtime,
            ServiceKind::FunAsrRealtime => ServiceAdapter::FunAsrRealtime,
            ServiceKind::TokenPlanRealtime => ServiceAdapter::AlibabaTokenPlanRealtime,
            ServiceKind::OpenAiRealtime => ServiceAdapter::OpenAiRealtime,
            ServiceKind::OpenAiRealtimeTranslate => ServiceAdapter::OpenAiRealtimeTranslate,
            ServiceKind::GroqTranscription => ServiceAdapter::GroqTranscription,
            ServiceKind::GeminiTranscribe => ServiceAdapter::GeminiTranscribe,
            ServiceKind::GeminiLiveTranslate => ServiceAdapter::GeminiLiveTranslate,
        }
    }

    pub fn context_max_chars(self) -> (r: Option<usize>)
        ensures
            match r {
                Some(n) => service_context_max(self) == Some(n as nat),
                None => service_context_max(self).is_none(),
            },
    {
        match self {
            ServiceKind::QwenRealtime => Some(2000),
            ServiceKind::FunAsrRealtime => Some(400),
            ServiceKind::OpenAiRealtime => Some(1000),
            _ => None,
        }
    }
}

impl ProviderKind {
    /// The provider's id.
    pub fn id(self) -> (r: &'static str)
        ensures
            r@ == provider_id(self),
    {
        match self {
            ProviderKind::AlibabaCloud => ALIBABA_PROVIDER,
            ProviderKind::AlibabaTokenPlan => ALIBABA_TOKEN_PLAN_PROVIDER,
            ProviderKind::OpenAi => OPENAI_PROVIDER,
            ProviderKind::Gemini => GEMINI_PROVIDER,
            ProviderKind::Groq => GROQ_PROVIDER,
            ProviderKind::DeepL => DEEPL_PROVIDER,
            ProviderKind::Ollama => OLLAMA_PROVIDER,
            ProviderKind::OpenAiCompatible => OPENAI_COMPATIBLE_PROVIDER,
        }
    }

    /// The provider's services, in catalog order.
    pub fn services(self) -> (r: Vec<ServiceKind>)
        ensures
            r@ == provider_services(self),
    {
        let mut v = Vec::new();
        match self {
            ProviderKind::AlibabaCloud => {
                v.push(ServiceKind::QwenRealtime);
                v.push(ServiceKind::FunAsrRealtime);
            },
            ProviderKind::AlibabaTokenPlan => {
                v.push(ServiceKind::TokenPlanRealtime);
            },
            ProviderKind::OpenAi => {
                v.push(ServiceKind::OpenAiRealtime);
                v.push(ServiceKind::OpenAiRealtimeTranslate);
            },
            ProviderKind::Groq => {
                v.push(ServiceKind::GroqTranscription);
            },
            ProviderKind::Gemini => {
                v.push(ServiceKind::GeminiTranscribe);
                v.push(ServiceKind::GeminiLiveTranslate);
            },
            _ => {},
        }
        assert(v@ =~= provider_services(self));
        v
    }

    pub fn supports(self, c: CapabilityKind) -> (r: bool)
        ensures
            r == provider_supports(self, c),
    {
        match self {
            ProviderKind::AlibabaTokenPlan => c == CapabilityKind::SpeechToText,
            ProviderKind::DeepL => c == CapabilityKind::TextTranslation,
            ProviderKind::Ollama | ProviderKind::OpenAiCompatible => c != CapabilityKind::SpeechToText,
            _ => true,
        }
    }

    pub fn uses_models(self) -> (r: bool)
        ensures
            r == provider_uses_models(self),
    {
        self != ProviderKind::DeepL && self != ProviderKind::AlibabaTokenPlan
    }

    pub fn takes_base_url(self) -> (r: bool)
        ensures
            r == provider_takes_base_url(self),
    {
        self == ProviderKind::Ollama || self == ProviderKind::OpenAiCompatible
    }
}

/// Whether a service translates speech as it recognizes it.
pub fn is_live_translation(service: &str) -> (r: bool)
    ensures
        r == live_translation_service(service@),
{
    str_eq(service, SERVICE_GEMINI_LIVE_TRANSLATE) || str_eq(service, SERVICE_OPENAI_REALTIME_TRANSLATE)
}

/// The views of a list of strings.
pub open spec fn views(v: Seq<String>) -> Seq<Seq<char>> {
    v.map_values(|s: String| s@)
}

/// The views of a list of string slices.
pub open spec fn str_views(v: Seq<&str>) -> Seq<Seq<char>> {
    v.map_values(|s: &str| s@)
}

/// Whether `list` holds `s`.
pub fn str_in(s: &str, list: &Vec<&'static str>) -> (r: bool)
    ensures
        r == str_views(list@).contains(s@),
{
    let mut i: usize = 0;
    while i < list.len()
        invariant
            i <= list.len(),
            forall|j: int| 0 <= j < i ==> str_views(list@)[j] != s@,
        decreases list.len() - i,
    {
        if str_eq(s, list[i]) {
            assert(str_views(list@)[i as int] == s@);
            return true;
        }
        i = i + 1;
    }
    false
}

/// Whether a profile lists a capability name among its enabled capabilities.
pub open spec fn enables(profile: &ApiProfile, capability: Seq<char>) -> bool {
    views(profile.enabled_capabilities@).contains(capability)
}

/// Whether `profile` enables the capability named `capability`.
pub fn profile_enables(profile: &ApiProfile, capability: &str) -> (r: bool)
    ensures
        r == enables(profile, capability@),
{
    let mut i: usize = 0;
    while i < profile.enabled_capabilities.len()
        invariant
            i <= profile.enabled_capabilities.len(),
            forall|j: int| 0 <= j < i ==> views(profile.enabled_capabilities@)[j] != capability@,
        decreases profile.enabled_capabilities.len() - i,
    {
        if str_eq(profile.enabled_capabilities[i].as_str(), capability) {
            assert(views(profile.enabled_capabilities@)[i as int] == capability@);
            return true;
        }
        i = i + 1;
    }
    false
}


/// The service a profile resolves to for `service`, or why it cannot serve it.
pub open spec fn resolve_spec(profile: &ApiProfile, service: Seq<char>) -> Result<ServiceKind, Seq<char>> {
    match service_from(service) {
        None => Err("Unsupported recognition service: "@ + service),
        Some(k) => match provider_from(profile.provider@) {
            None => Err("Unsupported API provider: "@ + profile.provider@),
            Some(p) => if service_provider(k) != p {
                Err("API profile "@ + profile.id@ + " does not provide service "@ + service)
            } else if !enables(profile, CAPABILITY_SPEECH_TO_TEXT@) {
                Err("API profile "@ + profile.id@ + " has not enabled speech recognition"@)
            } else {
                Ok(k)
            },
        },
    }
}

/// The service `profile` provides under the id `service_id`: the service must
/// belong to the profile's provider and the profile must enable speech recognition.
pub fn resolve_profile_service(profile: &ApiProfile, service_id: &str) -> (r: Result<ServiceKind, String>)
    ensures
        match r {
            Ok(k) => resolve_spec(profile, service_id@) == Ok::<ServiceKind, Seq<char>>(k),
            Err(e) => resolve_spec(profile, service_id@) == Err::<ServiceKind, Seq<char>>(e@),
        },
{
    let k = match recognition_service(service_id) {
        None => {
            return Err(concat("Unsupported recognition service: ", service_id));
        },
        Some(k) => k,
    };
    let p = match parse_provider(profile.provider.as_str()) {
        None => {
            return Err(concat("Unsupported API provider: ", profile.provider.as_str()));
        },
        Some(p) => p,
    };
    if k.provider() != p {
        let mut e = concat("API profile ", profile.id.as_str());
        crate::text::push_str(&mut e, " does not provide service ");
        crate::text::push_str(&mut e, service_id);
        return Err(e);
    }
    if !profile_enables(profile, CAPABILITY_SPEECH_TO_TEXT) {
        return Err(crate::text::concat3("API profile ", profile.id.as_str(), " has not enabled speech recognition"));
    }
    Ok(k)
}

/// What a profile is used for, from its enabled capabilities: speech
/// recognition only (`asr`), text work only (`llm`) or both (`shared`).
pub open spec fn purpose_spec(profile: &ApiProfile) -> Seq<char> {
    let asr = enables(profile, CAPABILITY_SPEECH_TO_TEXT@);
    let text = enables(profile, CAPABILITY_TEXT_GENERATION@) || enables(profile, CAPABILITY_TEXT_TRANSLATION@);
    if asr && text {
        "shared"@
    } else if asr {
        "asr"@
    } else {
        "llm"@
    }
}

/// The purpose a profile serves, derived from its capabilities.
pub fn effective_purpose(profile: &ApiProfile) -> (r: &'static str)
    ensures
        r@ == purpose_spec(profile),
{
    let asr = profile_enables(profile, CAPABILITY_SPEECH_TO_TEXT);
    let text = profile_enables(profile, CAPABILITY_TEXT_GENERATION) || profile_enables(
        profile,
        CAPABILITY_TEXT_TRANSLATION,
    );
    if asr && text {
        "shared"
    } else if asr {
        "asr"
    } else {
        "llm"
    }
}

/// Whether a profile can translate text: its provider offers translation and the
/// profile enables it.
pub open spec fn translation_spec(profile: &ApiProfile) -> bool {
    match provider_from(profile.provider@) {
        Some(p) => provider_supports(p, CapabilityKind::TextTranslation) && enables(
            profile,
            CAPABILITY_TEXT_TRANSLATION@,
        ),
        None => false,
    }
}

pub fn supports_translation(profile: &ApiProfile) -> (r: bool)
    ensures
        r == translation_spec(profile),
{
    match parse_provider(profile.provider.as_str()) {
        Some(p) => p.supports(CapabilityKind::TextTranslation) && profile_enables(
            profile,
            CAPABILITY_TEXT_TRANSLATION,
        ),
        None => false,
    }
}

/// Whether a profile translates through a language model that must be named.
pub open spec fn llm_models_spec(profile: &ApiProfile) -> bool {
    match provider_from(profile.provider@) {
        Some(p) => provider_uses_models(p),
        None => false,
    }
}

pub fn supports_llm_models(profile: &ApiProfile) -> (r: bool)
    ensures
        r == llm_models_spec(profile),
{
    match parse_provider(profile.provider.as_str()) {
        Some(p) => p.uses_models(),
        None => false,
    }
}

/// Target languages DeepL translates into, lower-cased.
pub open spec fn deepl_languages() -> Seq<Seq<char>> {
    str_views(deepl_language_list())
}

pub open spec fn deepl_language_list() -> Seq<&'static str> {
    seq![
        "ar", "bg", "cs", "da", "de", "el", "en", "en-gb", "en-us", "es", "et", "fi", "fr", "hu", "id",
        "it", "ja", "ko", "lt", "lv", "nb", "nl", "pl", "pt", "pt-br", "pt-pt", "ro", "ru", "sk",
        "sl", "sv", "tr", "uk", "zh", "zh-hans", "zh-hant",
    ]
}

fn deepl_language_vec() -> (r: Vec<&'static str>)
    ensures
        r@ == deepl_language_list(),
{
    let v = vec![
        "ar", "bg", "cs", "da", "de", "el", "en", "en-gb", "en-us", "es", "et", "fi", "fr", "hu", "id",
        "it", "ja", "ko", "lt", "lv", "nb", "nl", "pl", "pt", "pt-br", "pt-pt", "ro", "ru", "sk",
        "sl", "sv", "tr", "uk", "zh", "zh-hans", "zh-hant",
    ];
    assert(v@ =~= deepl_language_list());
    v
}

/// Target languages Gemini live translation produces, lower-cased.
pub open spec fn gemini_live_language_list() -> Seq<&'static str> {
    seq![
        "ar", "bn", "de", "en", "es", "fr", "hi", "id", "it", "ja", "ko", "pt", "ru", "th", "tr", "vi",
        "zh", "zh-hans", "zh-hant",
    ]
}

fn gemini_live_language_vec() -> (r: Vec<&'static str>)
    ensures
        r@ == gemini_live_language_list(),
{
    let v = vec![
        "ar", "bn", "de", "en", "es", "fr", "hi", "id", "it", "ja", "ko", "pt", "ru", "th", "tr", "vi",
        "zh", "zh-hans", "zh-hant",
    ];
    assert(v@ =~= gemini_live_language_list());
    v
}

/// Whether a profile translates into `language`: DeepL only into its own list,
/// model-based providers into any language.
pub open spec fn translation_language_spec(profile: &ApiProfile, language: Seq<char>) -> bool {
    provider_from(profile.provider@) == Some(ProviderKind::DeepL) ==> deepl_languages().contains(
        ascii_lower(language),
    )
}

pub fn supports_translation_language(profile: &ApiProfile, language: &str) -> (r: bool)
    ensures
        r == translation_language_spec(profile, language@),
{
    if parse_provider(profile.provider.as_str()) == Some(ProviderKind::DeepL) {
        let lower = ascii_lowercase(language);
        let list = deepl_language_vec();
        str_in(lower.as_str(), &list)
    } else {
        true
    }
}

/// No `-` among the first `k` characters.
pub open spec fn dash_free(s: Seq<char>, k: int) -> bool {
    forall|j: int| 0 <= j < k ==> s[j] != '-'
}

/// A language tag: letters, digits and single hyphens, starting with a primary
/// subtag of two to eight letters, at most 35 characters in all.
pub open spec fn language_tag(s: Seq<char>) -> bool {
    &&& 2 <= s.len() <= 35
    &&& forall|i: int| 0 <= i < s.len() ==> is_ascii_alnum(#[trigger] s[i]) || s[i] == '-'
    &&& forall|i: int|
        0 <= i < s.len() && #[trigger] s[i] == '-' ==> 2 <= i && i + 1 < s.len() && s[i + 1] != '-'
    &&& forall|i: int| 0 <= i < s.len() && #[trigger] dash_free(s, i + 1) ==> is_ascii_alpha(s[i]) && i < 8
}

pub fn is_valid_translation_language(language: &str) -> (r: bool)
    ensures
        r == language_tag(language@),
{
    let cs = crate::text::chars_of(language);
    let n = cs.len();
    if n < 2 || n > 35 {
        return false;
    }
    let mut i: usize = 0;
    let mut seen_dash = false;
    while i < n
        invariant
            2 <= n <= 35,
            n == cs.len(),
            cs@ == language@,
            i <= n,
            seen_dash == !dash_free(cs@, i as int),
            forall|j: int| 0 <= j < i ==> is_ascii_alnum(#[trigger] cs@[j]) || cs@[j] == '-',
            forall|j: int|
                0 <= j < i && #[trigger] cs@[j] == '-' ==> 2 <= j && j + 1 < n && cs@[j + 1] != '-',
            forall|j: int| 0 <= j < i && #[trigger] dash_free(cs@, j + 1) ==> is_ascii_alpha(cs@[j]) && j < 8,
        decreases n - i,
    {
        let c = cs[i];
        let alpha = ('a' <= c && c <= 'z') || ('A' <= c && c <= 'Z');
        let alnum = alpha || ('0' <= c && c <= '9');
        if !alnum && c != '-' {
            return false;
        }
        if c == '-' {
            if i < 2 || i + 1 >= n || cs[i + 1] == '-' {
                assert(cs@[i as int] == '-');
                return false;
            }
            assert(!dash_free(cs@, i + 1));
            seen_dash = true;
        } else {
            if !seen_dash {
                assert(dash_free(cs@, i + 1));
                if !alpha || i >= 8 {
                    return false;
                }
            } else {
                assert(!dash_free(cs@, i + 1));
            }
        }
        i = i + 1;
    }
    true
}

/// Whether a live translation service produces `language`, or why not.
pub open spec fn live_language_err(service: Seq<char>, language: Seq<char>) -> Option<Seq<char>> {
    if !language_tag(language) {
        Some("Invalid live translation target language: "@ + language)
    } else if service == SERVICE_GEMINI_LIVE_TRANSLATE@ {
        if str_views(gemini_live_language_list()).contains(ascii_lower(language)) {
            None
        } else {
            Some("Gemini live translation does not support target language: "@ + language)
        }
    } else if service == SERVICE_OPENAI_REALTIME_TRANSLATE@ {
        None
    } else {
        Some("Service "@ + service + " does not provide live translation"@)
    }
}

pub fn validate_live_translation_language(service: &str, language: &str) -> (r: Result<(), String>)
    ensures
        err_of(r) == live_language_err(service@, language@),
{
    if !is_valid_translation_language(language) {
        return Err(concat("Invalid live translation target language: ", language));
    }
    if str_eq(service, SERVICE_GEMINI_LIVE_TRANSLATE) {
        let lower = ascii_lowercase(language);
        let list = gemini_live_language_vec();
        if str_in(lower.as_str(), &list) {
            Ok(())
        } else {
            Err(concat("Gemini live translation does not support target language: ", language))
        }
    } else if str_eq(service, SERVICE_OPENAI_REALTIME_TRANSLATE) {
        Ok(())
    } else {
        Err(crate::text::concat3("Service ", service, " does not provide live translation"))
    }
}

/// A model name a recognition service accepts: one to 128 letters, digits or `-_.:/`.
pub open spec fn model_name_char(c: char) -> bool {
    is_ascii_alnum(c) || c == '-' || c == '_' || c == '.' || c == ':' || c == '/'
}

pub open spec fn model_spec(model: Seq<char>) -> bool {
    1 <= model.len() <= 128 && forall|i: int| 0 <= i < model.len() ==> model_name_char(#[trigger] model[i])
}

/// Whether `service` accepts the model name `model`; custom names are allowed.
pub fn recognition_model_supported(service: ServiceKind, model: &str) -> (r: bool)
    ensures
        r == model_spec(model@),
{
    let cs = crate::text::chars_of(model);
    if cs.len() < 1 || cs.len() > 128 {
        return false;
    }
    let mut i: usize = 0;
    while i < cs.len()
        invariant
            i <= cs.len(),
            cs@ == model@,
            forall|j: int| 0 <= j < i ==> model_name_char(#[trigger] cs@[j]),
        decreases cs.len() - i,
    {
        let c = cs[i];
        let ok = ('a' <= c && c <= 'z') || ('A' <= c && c <= 'Z') || ('0' <= c && c <= '9') || c == '-'
            || c == '_' || c == '.' || c == ':' || c == '/';
        if !ok {
            assert(!model_name_char(model@[i as int]));
            return false;
        }
        i = i + 1;
    }
    true
}

/// The environment variables that hold a provider's API key, and the older
/// names still read after them.
pub open spec fn environment_spec(p: ProviderKind) -> (Seq<Seq<char>>, Seq<Seq<char>>) {
    match p {
        ProviderKind::AlibabaCloud => (
            seq!["VRCS_ALIBABA_API_KEY"@, "DASHSCOPE_API_KEY"@],
            seq!["VRCS_QWEN_API_KEY"@],
        ),
        ProviderKind::AlibabaTokenPlan => (seq!["VRCS_ALIBABA_TOKEN_PLAN_API_KEY"@], Seq::empty()),
        ProviderKind::OpenAi => (seq!["VRCS_OPENAI_API_KEY"@, "OPENAI_API_KEY"@], Seq::empty()),
        ProviderKind::Gemini => (seq!["VRCS_GEMINI_API_KEY"@, "GEMINI_API_KEY"@], Seq::empty()),
        ProviderKind::Groq => (
            seq!["VRCS_GROQ_API_KEY"@, "GROQ_API_KEY"@],
            seq!["VRCS_OPENAI_COMPATIBLE_API_KEY"@],
        ),
        ProviderKind::DeepL => (seq!["VRCS_DEEPL_API_KEY"@, "DEEPL_AUTH_KEY"@], Seq::empty()),
        ProviderKind::Ollama => (seq!["VRCS_OLLAMA_API_KEY"@], Seq::empty()),
        ProviderKind::OpenAiCompatible => (seq!["VRCS_OPENAI_COMPATIBLE_API_KEY"@], Seq::empty()),
    }
}

impl ProviderKind {
    /// Environment variables that hold the provider's API key, then the older names.
    pub fn environment_variables(self) -> (r: (Vec<&'static str>, Vec<&'static str>))
        ensures
            str_views(r.0@) == environment_spec(self).0,
            str_views(r.1@) == environment_spec(self).1,
    {
        let mut a: Vec<&'static str> = Vec::new();
        let mut b: Vec<&'static str> = Vec::new();
        match self {
            ProviderKind::AlibabaCloud => {
                a.push("VRCS_ALIBABA_API_KEY");
                a.push("DASHSCOPE_API_KEY");
                b.push("VRCS_QWEN_API_KEY");
            },
            ProviderKind::AlibabaTokenPlan => {
                a.push("VRCS_ALIBABA_TOKEN_PLAN_API_KEY");
            },
            ProviderKind::OpenAi => {
                a.push("VRCS_OPENAI_API_KEY");
                a.push("OPENAI_API_KEY");
            },
            ProviderKind::Gemini => {
                a.push("VRCS_GEMINI_API_KEY");
                a.push("GEMINI_API_KEY");
            },
            ProviderKind::Groq => {
                a.push("VRCS_GROQ_API_KEY");
                a.push("GROQ_API_KEY");
                b.push("VRCS_OPENAI_COMPATIBLE_API_KEY");
            },
            ProviderKind::DeepL => {
                a.push("VRCS_DEEPL_API_KEY");
                a.push("DEEPL_AUTH_KEY");
            },
            ProviderKind::Ollama => {
                a.push("VRCS_OLLAMA_API_KEY");
            },
            ProviderKind::OpenAiCompatible => {
                a.push("VRCS_OPENAI_COMPATIBLE_API_KEY");
            },
        }
        assert(str_views(a@) =~= environment_spec(self).0);
        assert(str_views(b@) =~= environment_spec(self).1);
        (a, b)
    }
}


/// Why the `i`-th enabled capability is not acceptable for provider `p`.
pub open spec fn capability_err(p: ProviderKind, caps: Seq<Seq<char>>, i: int) -> Option<Seq<char>> {
    match capability_from(caps[i]) {
        None => Some("Unsupported API capability: "@ + caps[i]),
        Some(c) => if !provider_supports(p, c) {
            Some("The API provider does not support capability: "@ + caps[i])
        } else if exists|j: int| 0 <= j < i && caps[j] == caps[i] {
            Some("API profile capabilities must be unique"@)
        } else {
            None
        },
    }
}

/// The capability checks of a profile, one per position.
pub open spec fn capability_checks(p: ProviderKind, caps: Seq<Seq<char>>) -> spec_fn(int) -> Option<Seq<char>> {
    |i: int| capability_err(p, caps, i)
}

pub open spec fn capabilities_err(p: ProviderKind, caps: Seq<Seq<char>>) -> Option<Seq<char>> {
    if caps.len() == 0 {
        Some("An API profile must enable at least one capability"@)
    } else {
        first_err(capability_checks(p, caps), 0, caps.len() as int)
    }
}

fn check_capabilities(p: ProviderKind, profile: &ApiProfile) -> (r: Result<(), String>)
    ensures
        err_of(r) == capabilities_err(p, views(profile.enabled_capabilities@)),
{
    let caps = &profile.enabled_capabilities;
    let ghost cv = views(caps@);
    let ghost f = capability_checks(p, cv);
    if caps.len() == 0 {
        return Err("An API profile must enable at least one capability".to_owned());
    }
    let mut i: usize = 0;
    while i < caps.len()
        invariant
            i <= caps.len(),
            cv == views(caps@),
            cv == views(profile.enabled_capabilities@),
            f == capability_checks(p, cv),
            forall|j: int| 0 <= j < i ==> #[trigger] f(j).is_none(),
        decreases caps.len() - i,
    {
        let name = caps[i].as_str();
        assert(name@ == cv[i as int]);
        let err = match parse_capability(name) {
            None => Some(concat("Unsupported API capability: ", name)),
            Some(c) => if !p.supports(c) {
                Some(concat("The API provider does not support capability: ", name))
            } else {
                let mut j: usize = 0;
                let mut dup = false;
                while j < i
                    invariant
                        j <= i < caps.len(),
                        cv == views(caps@),
                        name@ == cv[i as int],
                        dup == (exists|k: int| 0 <= k < j && cv[k] == cv[i as int]),
                    decreases i - j,
                {
                    if str_eq(caps[j].as_str(), name) {
                        assert(cv[j as int] == cv[i as int]);
                        dup = true;
                    }
                    j = j + 1;
                }
                if dup {
                    Some("API profile capabilities must be unique".to_owned())
                } else {
                    None
                }
            },
        };
        assert(match err {
            Some(e) => f(i as int) == Some(e@),
            None => f(i as int).is_none(),
        });
        match err {
            Some(e) => {
                proof {
                    lemma_first_err_at(f, 0, cv.len() as int, i as int);
                }
                return Err(e);
            },
            None => {},
        }
        i = i + 1;
    }
    proof {
        lemma_first_err_none(f, 0, cv.len() as int);
    }
    Ok(())
}

pub open spec fn opt_str(o: Option<String>) -> Option<Seq<char>> {
    match o {
        Some(s) => Some(s@),
        None => None,
    }
}

/// Why a profile's region is not acceptable.
pub open spec fn region_err(p: ProviderKind, region: Option<Seq<char>>) -> Option<Seq<char>> {
    match region {
        None => None,
        Some(r) => if p != ProviderKind::AlibabaCloud {
            Some("Only Alibaba Cloud profiles select a region"@)
        } else if r != "china_beijing"@ && r != "singapore"@ {
            Some("Unsupported Alibaba Cloud region: "@ + r)
        } else {
            None
        },
    }
}

fn check_region(p: ProviderKind, region: &Option<String>) -> (r: Result<(), String>)
    ensures
        err_of(r) == region_err(p, opt_str(*region)),
{
    match region {
        None => Ok(()),
        Some(r) => if p != ProviderKind::AlibabaCloud {
            Err("Only Alibaba Cloud profiles select a region".to_owned())
        } else if !str_eq(r.as_str(), "china_beijing") && !str_eq(r.as_str(), "singapore") {
            Err(concat("Unsupported Alibaba Cloud region: ", r.as_str()))
        } else {
            Ok(())
        },
    }
}

/// Why a workspace id is not acceptable.
pub open spec fn workspace_err(workspace: Option<Seq<char>>) -> Option<Seq<char>> {
    match workspace {
        None => None,
        Some(w) => if trim(w).len() == 0 || w.len() > 128 {
            Some("The API profile workspace ID must contain 1 to 128 characters"@)
        } else {
            None
        },
    }
}

fn check_workspace(workspace: &Option<String>) -> (r: Result<(), String>)
    ensures
        err_of(r) == workspace_err(opt_str(*workspace)),
{
    match workspace {
        None => Ok(()),
        Some(w) => if is_blank(w.as_str()) || char_count(w.as_str()) > 128 {
            Err("The API profile workspace ID must contain 1 to 128 characters".to_owned())
        } else {
            Ok(())
        },
    }
}

/// A host that names this machine: `localhost` in any letter case, or a loopback address.
pub open spec fn loopback_host(host: Seq<char>) -> bool {
    ascii_lower(host) == "localhost"@ || ip_loopback(host) == Some(true)
}

pub fn is_loopback_host(host: &str) -> (r: bool)
    ensures
        r == loopback_host(host@),
{
    let lower = ascii_lowercase(host);
    str_eq(lower.as_str(), "localhost") || parse_ip_loopback(host) == Some(true)
}

/// What the parsed form of a profile's Base URL makes of it: `None` when
/// acceptable, else why not.
pub open spec fn base_url_parts_err(auth: ApiAuthMode, parsed: Option<UrlView>) -> Option<Seq<char>> {
    match parsed {
        None => Some("The API profile Base URL is invalid"@),
        Some(v) => if v.0 != "http"@ && v.0 != "https"@ {
            Some("The API profile Base URL must use HTTP or HTTPS"@)
        } else if v.1.is_none() {
            Some("The API profile Base URL is invalid"@)
        } else if v.2.len() > 0 || v.3.is_some() || v.4.is_some() || v.5.is_some() {
            Some("The API profile Base URL cannot contain credentials, a query, or a fragment"@)
        } else if v.0 == "http"@ && auth == ApiAuthMode::Bearer && !loopback_host(v.1.unwrap()) {
            Some("API profiles cannot send Bearer credentials over remote HTTP"@)
        } else {
            None
        },
    }
}

/// Why a profile's Base URL is not acceptable.
pub open spec fn base_url_err(p: ProviderKind, auth: ApiAuthMode, base: Option<Seq<char>>) -> Option<Seq<char>> {
    match base {
        None => if p == ProviderKind::OpenAiCompatible {
            Some("A Base URL is required for OpenAI-compatible profiles"@)
        } else {
            None
        },
        Some(u) => if !provider_takes_base_url(p) {
            Some("The API profile Base URL is only used by compatible providers"@)
        } else {
            base_url_parts_err(auth, url_parse(u))
        },
    }
}

/// Judges a parsed Base URL (`None` when it did not parse): HTTP or HTTPS with
/// a host, no credentials, query or fragment, and no Bearer token sent over
/// plain HTTP to another machine.
pub fn base_url_verdict(auth: ApiAuthMode, parsed: &Option<UrlParts>) -> (r: Result<(), String>)
    ensures
        err_of(r) == base_url_parts_err(auth, opt_parts(*parsed)),
{
    let parts = match parsed {
        None => {
            return Err("The API profile Base URL is invalid".to_owned());
        },
        Some(parts) => parts,
    };
    let http = str_eq(parts.scheme.as_str(), "http");
    if !http && !str_eq(parts.scheme.as_str(), "https") {
        return Err("The API profile Base URL must use HTTP or HTTPS".to_owned());
    }
    let host = match &parts.host {
        None => {
            return Err("The API profile Base URL is invalid".to_owned());
        },
        Some(h) => h,
    };
    if char_count(parts.username.as_str()) > 0 || parts.password.is_some()
        || parts.query.is_some() || parts.fragment.is_some() {
        return Err(
            "The API profile Base URL cannot contain credentials, a query, or a fragment".to_owned(),
        );
    }
    if http && auth == ApiAuthMode::Bearer && !is_loopback_host(host.as_str()) {
        return Err("API profiles cannot send Bearer credentials over remote HTTP".to_owned());
    }
    Ok(())
}

fn check_base_url(p: ProviderKind, auth: ApiAuthMode, base: &Option<String>) -> (r: Result<(), String>)
    ensures
        err_of(r) == base_url_err(p, auth, opt_str(*base)),
{
    match base {
        None => if p == ProviderKind::OpenAiCompatible {
            Err("A Base URL is required for OpenAI-compatible profiles".to_owned())
        } else {
            Ok(())
        },
        Some(u) => {
            if !p.takes_base_url() {
                return Err("The API profile Base URL is only used by compatible providers".to_owned());
            }
            let parsed = parse_url(u.as_str());
            base_url_verdict(auth, &parsed)
        },
    }
}

/// Why a request timeout is not acceptable.
pub open spec fn timeout_err(timeout_ms: u32) -> Option<Seq<char>> {
    if 1000 <= timeout_ms && timeout_ms <= 300_000 {
        None
    } else {
        Some("API profile timeout_ms must be between 1000 and 300000"@)
    }
}

/// A header-name character (an HTTP token character).
pub open spec fn token_char(c: char) -> bool {
    is_ascii_alnum(c) || c == '!' || c == '#' || c == '$' || c == '%' || c == '&' || c == '\''
        || c == '*' || c == '+' || c == '-' || c == '.' || c == '^' || c == '_' || c == '`' || c == '|'
        || c == '~'
}

pub open spec fn header_name_ok(n: Seq<char>) -> bool {
    1 <= n.len() <= 64 && forall|i: int| 0 <= i < n.len() ==> token_char(#[trigger] n[i])
}

/// Header names that carry credentials or framing and so cannot be configured, lower-cased.
pub open spec fn reserved_header_list() -> Seq<&'static str> {
    seq![
        "authorization", "proxy-authorization", "cookie", "host", "content-length", "x-api-key",
        "x-goog-api-key", "api-key",
    ]
}

fn reserved_header_vec() -> (r: Vec<&'static str>)
    ensures
        r@ == reserved_header_list(),
{
    let v = vec![
        "authorization", "proxy-authorization", "cookie", "host", "content-length", "x-api-key",
        "x-goog-api-key", "api-key",
    ];
    assert(v@ =~= reserved_header_list());
    v
}

/// Why one custom header is not acceptable.
pub open spec fn header_err(h: HttpHeaderConfig) -> Option<Seq<char>> {
    if !header_name_ok(h.name@) {
        Some("Invalid API profile header name: "@ + h.name@)
    } else if str_views(reserved_header_list()).contains(ascii_lower(h.name@)) {
        Some("API profile header is not allowed: "@ + h.name@)
    } else if h.value@.len() > 1024 || has_control(h.value@) {
        Some("Invalid value for API profile header: "@ + h.name@)
    } else {
        None
    }
}

/// The header checks, one per position.
pub open spec fn header_checks(hs: Seq<HttpHeaderConfig>) -> spec_fn(int) -> Option<Seq<char>> {
    |i: int| header_err(hs[i])
}

pub open spec fn headers_err(hs: Seq<HttpHeaderConfig>) -> Option<Seq<char>> {
    if hs.len() > 16 {
        Some("API profiles cannot define more than 16 headers"@)
    } else {
        first_err(header_checks(hs), 0, hs.len() as int)
    }
}

fn check_header_name(name: &str) -> (r: bool)
    ensures
        r == header_name_ok(name@),
{
    let cs = crate::text::chars_of(name);
    if cs.len() < 1 || cs.len() > 64 {
        return false;
    }
    let mut i: usize = 0;
    while i < cs.len()
        invariant
            i <= cs.len(),
            cs@ == name@,
            forall|j: int| 0 <= j < i ==> token_char(#[trigger] cs@[j]),
        decreases cs.len() - i,
    {
        let c = cs[i];
        let ok = ('a' <= c && c <= 'z') || ('A' <= c && c <= 'Z') || ('0' <= c && c <= '9') || c == '!'
            || c == '#' || c == '$' || c == '%' || c == '&' || c == '\'' || c == '*' || c == '+'
            || c == '-' || c == '.' || c == '^' || c == '_' || c == '`' || c == '|' || c == '~';
        if !ok {
            assert(!token_char(name@[i as int]));
            return false;
        }
        i = i + 1;
    }
    true
}

fn check_headers(headers: &Vec<HttpHeaderConfig>) -> (r: Result<(), String>)
    ensures
        err_of(r) == headers_err(headers@),
{
    if headers.len() > 16 {
        return Err("API profiles cannot define more than 16 headers".to_owned());
    }
    let ghost f = header_checks(headers@);
    let reserved = reserved_header_vec();
    let mut i: usize = 0;
    while i < headers.len()
        invariant
            i <= headers.len() <= 16,
            reserved@ == reserved_header_list(),
            f == header_checks(headers@),
            forall|j: int| 0 <= j < i ==> #[trigger] f(j).is_none(),
        decreases headers.len() - i,
    {
        let h = &headers[i];
        let name = h.name.as_str();
        let err = if !check_header_name(name) {
            Some(concat("Invalid API profile header name: ", name))
        } else if str_in(ascii_lowercase(name).as_str(), &reserved) {
            Some(concat("API profile header is not allowed: ", name))
        } else if char_count(h.value.as_str()) > 1024 || contains_control(h.value.as_str()) {
            Some(concat("Invalid value for API profile header: ", name))
        } else {
            None
        };
        assert(match err {
            Some(e) => f(i as int) == Some(e@),
            None => f(i as int).is_none(),
        });
        match err {
            Some(e) => {
                proof {
                    lemma_first_err_at(f, 0, headers@.len() as int, i as int);
                }
                return Err(e);
            },
            None => {},
        }
        i = i + 1;
    }
    proof {
        lemma_first_err_none(f, 0, headers@.len() as int);
    }
    Ok(())
}

/// Why an API profile is not acceptable, checked in this order: provider,
/// capabilities, region, workspace, Base URL, timeout, headers.
pub open spec fn profile_err(profile: &ApiProfile) -> Option<Seq<char>> {
    match provider_from(profile.provider@) {
        None => Some("Unsupported API provider: "@ + profile.provider@),
        Some(p) => then(
            capabilities_err(p, views(profile.enabled_capabilities@)),
            then(
                region_err(p, opt_str(profile.region)),
                then(
                    workspace_err(opt_str(profile.workspace_id)),
                    then(
                        base_url_err(p, profile.auth_mode, opt_str(profile.base_url)),
                        then(timeout_err(profile.timeout_ms), headers_err(profile.headers@)),
                    ),
                ),
            ),
        ),
    }
}

/// Checks one API profile against its provider's rules.
pub fn validate_profile(profile: &ApiProfile) -> (r: Result<(), String>)
    ensures
        err_of(r) == profile_err(profile),
{
    let p = match parse_provider(profile.provider.as_str()) {
        None => {
            return Err(concat("Unsupported API provider: ", profile.provider.as_str()));
        },
        Some(p) => p,
    };
    check_capabilities(p, profile)?;
    check_region(p, &profile.region)?;
    check_workspace(&profile.workspace_id)?;
    check_base_url(p, profile.auth_mode, &profile.base_url)?;
    if !(1000 <= profile.timeout_ms && profile.timeout_ms <= 300_000) {
        return Err("API profile timeout_ms must be between 1000 and 300000".to_owned());
    }
    check_headers(&profile.headers)
}

} // verus!
