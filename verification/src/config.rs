//! Application configuration: the settings document that validation checks.
//!
//! Floating-point settings are held as `F32`, their binary32 encoding.
use vstd::prelude::*;

use crate::float_bits::F32;
use crate::service_settings::ServiceSettingsMap;

verus! {

/// Default system prompt for translation requests.
pub const DEFAULT_TRANSLATION_SYSTEM_PROMPT: &'static str = "Translate the {source_language} text into {target_language}. Use the glossary when it applies:\n{glossary}\nRecent conversation for context:\n{context}\nReply with the translation only.";

/// Default model of a translation route that goes through a language model.
pub const DEFAULT_TRANSLATION_MODEL: &'static str = "gpt-4.1-mini";

#[derive(Clone, Debug)]
pub struct ServerConfig {
    pub port: u16,
}

#[derive(Clone, Debug)]
pub struct StorageConfig {
    pub subtitle_history_max_bytes: u64,
    pub model_directory: String,
}

#[derive(Clone, Debug)]
pub struct ExternalApiConfig {
    pub host: String,
    pub port: u16,
    pub require_token: bool,
}

#[derive(Clone, Debug)]
pub struct VrcxConfig {
    pub port: u16,
}

#[derive(Clone, Debug)]
pub struct OutputAudioConfig {
    pub mode: String,
    pub device_id: Option<i64>,
    pub trigger_threshold_dbfs: F32,
}

#[derive(Clone, Debug)]
pub struct MicrophoneConfig {
    pub mode: String,
    pub device_id: Option<i64>,
    pub trigger_threshold_dbfs: F32,
}

#[derive(Clone, Debug)]
pub struct AudioConfig {
    pub sample_rate: u32,
    pub output: OutputAudioConfig,
    pub microphone: MicrophoneConfig,
}

#[derive(Clone, Debug)]
pub struct VadConfig {
    pub endpointing: String,
    pub silence_seconds: F32,
    pub max_speech_seconds: F32,
}

#[derive(Clone, Debug)]
pub struct LocalAsrConfig {
    pub model: String,
    pub device: String,
    pub compute_type: String,
}

/// How an API profile authenticates its requests.
#[derive(Clone, Copy, Debug, PartialEq, Eq, Structural)]
pub enum ApiAuthMode {
    Bearer,
    Unauthenticated,
}

#[derive(Clone, Debug)]
pub struct HttpHeaderConfig {
    pub name: String,
    pub value: String,
}

/// A saved connection to one API provider.
#[derive(Clone, Debug)]
pub struct ApiProfile {
    pub id: String,
    pub name: String,
    pub provider: String,
    pub region: Option<String>,
    pub workspace_id: Option<String>,
    pub base_url: Option<String>,
    pub enabled_capabilities: Vec<String>,
    pub preset_id: Option<String>,
    pub auth_mode: ApiAuthMode,
    pub is_local: bool,
    pub headers: Vec<HttpHeaderConfig>,
    pub timeout_ms: u32,
}

#[derive(Clone, Debug)]
pub struct AsrConfig {
    pub backend: String,
    pub language: String,
    pub local: LocalAsrConfig,
    pub api_profiles: Vec<ApiProfile>,
    pub active_profile_id: Option<String>,
    pub service_settings: ServiceSettingsMap,
    pub cloud_failure_policy: String,
    /// Resolved per audio source; never persisted.
    pub live_translation_target: Option<String>,
}

#[derive(Clone, Copy, Debug, PartialEq, Eq, Structural)]
pub enum GlossaryCategory {
    Person,
    Place,
    Term,
    Custom,
}

#[derive(Clone, Debug)]
pub struct GlossaryEntry {
    pub source: String,
    pub target: Option<String>,
    pub category: GlossaryCategory,
    pub case_sensitive: bool,
}

#[derive(Clone, Debug)]
pub enum GlossarySource {
    Local { id: String, name: String, enabled: bool, entries: Vec<GlossaryEntry> },
    Subscription { id: String, url: String, display_name: Option<String>, enabled: bool },
}

#[derive(Clone, Debug)]
pub struct GlossaryConfig {
    pub sources: Vec<GlossarySource>,
}

#[derive(Clone, Debug)]
pub struct TranslationPromptConfig {
    pub system_prompt: String,
    pub max_messages: u32,
    pub max_chars: u32,
    pub glossary: Vec<GlossaryEntry>,
}

#[derive(Clone, Debug)]
pub struct TranslationTargetConfig {
    pub target_language: String,
    pub profile_id: Option<String>,
    pub model: String,
}

#[derive(Clone, Debug)]
pub struct TranslationConfig {
    pub mode: String,
    pub speaker_targets: Vec<TranslationTargetConfig>,
    pub microphone_targets: Vec<TranslationTargetConfig>,
    pub prompt: TranslationPromptConfig,
}

#[derive(Clone, Debug)]
pub struct LanguagePreset {
    pub id: String,
    pub name: String,
    pub recognition_language: String,
    pub translation_mode: String,
    pub speaker_targets: Vec<TranslationTargetConfig>,
    pub microphone_targets: Vec<TranslationTargetConfig>,
    pub osc_translation_strategy: String,
}

#[derive(Clone, Debug)]
pub struct OscConfig {
    pub port: u16,
    pub translation_strategy: String,
}

#[derive(Clone, Debug)]
pub struct AnkiConfig {
    pub port: u16,
    pub deck: String,
    pub model: String,
    pub front_field: String,
    pub back_field: String,
}

#[derive(Clone, Debug)]
pub struct VrOverlayHeadsetConfig {
    pub content_mode: String,
    pub offset_x_m: F32,
    pub offset_y_m: F32,
    pub distance_m: F32,
    pub pitch_deg: F32,
    pub yaw_deg: F32,
    pub roll_deg: F32,
    pub width_m: F32,
    pub opacity: F32,
    pub display_seconds: F32,
    pub fade_seconds: F32,
    pub font_size_px: u32,
    pub background_opacity: F32,
    pub show_partials: bool,
    pub show_translation_partials: bool,
    pub include_speaker: bool,
    pub include_microphone: bool,
    pub include_chatbox: bool,
}

#[derive(Clone, Debug)]
pub struct VrOverlayWristConfig {
    pub hand: String,
    pub dominant_hand: String,
    pub content_mode: String,
    pub max_entries: u32,
    pub idle_hide_seconds: u32,
    pub offset_x_m: F32,
    pub offset_y_m: F32,
    pub offset_z_m: F32,
    pub pitch_deg: F32,
    pub yaw_deg: F32,
    pub roll_deg: F32,
    pub width_m: F32,
    pub opacity: F32,
    pub font_size_px: u32,
    pub background_opacity: F32,
    pub show_partials: bool,
    pub show_translation_partials: bool,
    pub include_speaker: bool,
    pub include_microphone: bool,
    pub include_chatbox: bool,
}

#[derive(Clone, Debug)]
pub struct VrOverlayConfig {
    pub translation_display: String,
    pub headset: VrOverlayHeadsetConfig,
    pub wrist: VrOverlayWristConfig,
}

/// Dictionary features.
#[derive(Clone, Debug)]
pub struct DictionaryConfig {
    pub selection_lookup_enabled: bool,
}

/// The shipped value of a `DictionaryConfig`.
pub open spec fn default_dictionary(r: DictionaryConfig) -> bool {
    &&& r.selection_lookup_enabled
}

impl Default for DictionaryConfig {
    fn default() -> (r: Self)
        ensures
            default_dictionary(r),
    {
        DictionaryConfig { selection_lookup_enabled: true }
    }
}

/// The whole settings document.
#[derive(Clone, Debug)]
pub struct AppConfig {
    pub server: ServerConfig,
    pub storage: StorageConfig,
    pub external_api: ExternalApiConfig,
    pub vrcx: VrcxConfig,
    pub audio: AudioConfig,
    pub vad: VadConfig,
    pub asr: AsrConfig,
    pub glossary: GlossaryConfig,
    pub translation: TranslationConfig,
    pub language_presets: Vec<LanguagePreset>,
    pub osc: OscConfig,
    pub anki: AnkiConfig,
    pub vr_overlay: VrOverlayConfig,
}

fn f32c(bits: u32) -> (r: F32)
    ensures
        r.bits == bits,
{
    F32 { bits }
}

impl TranslationTargetConfig {
    /// A route to `target_language` with no API profile chosen yet.
    pub fn new(target_language: &str) -> (r: Self)
        ensures
            r.target_language@ == target_language@,
            r.profile_id.is_none(),
            r.model@ == DEFAULT_TRANSLATION_MODEL@,
    {
        TranslationTargetConfig {
            target_language: target_language.to_owned(),
            profile_id: None,
            model: DEFAULT_TRANSLATION_MODEL.to_owned(),
        }
    }
}

impl Default for ApiProfile {
    fn default() -> (r: Self)
        ensures
            r.id@.len() == 0,
            r.name@.len() == 0,
            r.provider@.len() == 0,
            r.region.is_none(),
            r.workspace_id.is_none(),
            r.base_url.is_none(),
            r.enabled_capabilities@.len() == 0,
            r.preset_id.is_none(),
            r.auth_mode == ApiAuthMode::Bearer,
            !r.is_local,
            r.headers@.len() == 0,
            r.timeout_ms == 60_000,
    {
        ApiProfile {
            id: String::new(),
            name: String::new(),
            provider: String::new(),
            region: None,
            workspace_id: None,
            base_url: None,
            enabled_capabilities: Vec::new(),
            preset_id: None,
            auth_mode: ApiAuthMode::Bearer,
            is_local: false,
            headers: Vec::new(),
            timeout_ms: 60_000,
        }
    }
}

/// The shipped value of a `LocalAsrConfig`.
pub open spec fn default_local_asr(r: LocalAsrConfig) -> bool {
    &&& r.model@ == "small"@
    &&& r.device@ == "auto"@
    &&& r.compute_type@ == "int8"@
}

impl Default for LocalAsrConfig {
    fn default() -> (r: Self)
        ensures
            default_local_asr(r),
    {
        LocalAsrConfig {
            model: "small".to_owned(),
            device: "auto".to_owned(),
            compute_type: "int8".to_owned(),
        }
    }
}

/// The shipped value of a `AsrConfig`.
pub open spec fn default_asr(r: AsrConfig) -> bool {
    &&& r.backend@ == crate::providers::SERVICE_QWEN_REALTIME@
    &&& r.language@ == "auto"@
    &&& r.api_profiles@.len() == 0
    &&& r.active_profile_id.is_none()
    &&& r.service_settings.wf()
    &&& crate::service_settings::default_settings_view(r.service_settings@)
    &&& crate::service_settings::default_settings_keys(r.service_settings@)
    &&& r.cloud_failure_policy@ == "reconnect"@
    &&& r.live_translation_target.is_none()
    &&& default_local_asr(r.local)
}

impl Default for AsrConfig {
    fn default() -> (r: Self)
        ensures
            default_asr(r),
    {
        AsrConfig {
            backend: crate::providers::SERVICE_QWEN_REALTIME.to_owned(),
            language: "auto".to_owned(),
            local: LocalAsrConfig::default(),
            api_profiles: Vec::new(),
            active_profile_id: None,
            service_settings: crate::service_settings::default_service_settings(),
            cloud_failure_policy: "reconnect".to_owned(),
            live_translation_target: None,
        }
    }
}

/// The shipped value of a `TranslationPromptConfig`.
pub open spec fn default_prompt(r: TranslationPromptConfig) -> bool {
    &&& r.system_prompt@ == DEFAULT_TRANSLATION_SYSTEM_PROMPT@
    &&& r.max_messages == 5
    &&& r.max_chars == 4_000
    &&& r.glossary@.len() == 0
}

impl Default for TranslationPromptConfig {
    fn default() -> (r: Self)
        ensures
            default_prompt(r),
    {
        TranslationPromptConfig {
            system_prompt: DEFAULT_TRANSLATION_SYSTEM_PROMPT.to_owned(),
            max_messages: 5,
            max_chars: 4_000,
            glossary: Vec::new(),
        }
    }
}

/// The shipped value of a `GlossaryConfig`.
pub open spec fn default_glossary(r: GlossaryConfig) -> bool {
    &&& r.sources@.len() == 0
}

impl Default for GlossaryConfig {
    fn default() -> (r: Self)
        ensures
            default_glossary(r),
    {
        GlossaryConfig { sources: Vec::new() }
    }
}

/// The shipped value of a `TranslationConfig`.
pub open spec fn default_translation(r: TranslationConfig) -> bool {
    &&& r.mode@ == "disabled"@
    &&& r.speaker_targets@.len() == 1
    &&& r.speaker_targets@[0].target_language@ == "zh-Hans"@
    &&& r.speaker_targets@[0].profile_id.is_none()
    &&& r.microphone_targets@.len() == 1
    &&& r.microphone_targets@[0].target_language@ == "en"@
    &&& r.microphone_targets@[0].profile_id.is_none()
    &&& r.speaker_targets@[0].model@ == DEFAULT_TRANSLATION_MODEL@
    &&& r.microphone_targets@[0].model@ == DEFAULT_TRANSLATION_MODEL@
    &&& default_prompt(r.prompt)
}

impl Default for TranslationConfig {
    fn default() -> (r: Self)
        ensures
            default_translation(r),
    {
        let mut speaker_targets = Vec::new();
        speaker_targets.push(TranslationTargetConfig::new("zh-Hans"));
        let mut microphone_targets = Vec::new();
        microphone_targets.push(TranslationTargetConfig::new("en"));
        TranslationConfig {
            mode: "disabled".to_owned(),
            speaker_targets,
            microphone_targets,
            prompt: TranslationPromptConfig::default(),
        }
    }
}

/// The shipped value of a `VadConfig`.
pub open spec fn default_vad(r: VadConfig) -> bool {
    &&& r.endpointing@ == "silence"@
    &&& r.silence_seconds.bits == 0x3f00_0000
    &&& r.max_speech_seconds.bits == 0x4170_0000
}

impl Default for VadConfig {
    /// Silence endpointing after 0.5 s, utterances capped at 15 s.
    fn default() -> (r: Self)
        ensures
            default_vad(r),
    {
        VadConfig {
            endpointing: "silence".to_owned(),
            silence_seconds: f32c(0x3f00_0000),
            max_speech_seconds: f32c(0x4170_0000),
        }
    }
}

/// The shipped value of a `AudioConfig`.
pub open spec fn default_audio(r: AudioConfig) -> bool {
    &&& r.sample_rate == 48_000
    &&& r.output.mode@ == "system"@
    &&& r.output.device_id.is_none()
    &&& r.output.trigger_threshold_dbfs.bits == 0xc248_0000
    &&& r.microphone.mode@ == "default"@
    &&& r.microphone.device_id.is_none()
    &&& r.microphone.trigger_threshold_dbfs.bits == 0xc248_0000
}

impl Default for AudioConfig {
    /// 48 kHz, system output and the default microphone, both triggering at -50 dBFS.
    fn default() -> (r: Self)
        ensures
            default_audio(r),
    {
        AudioConfig {
            sample_rate: 48_000,
            output: OutputAudioConfig {
                mode: "system".to_owned(),
                device_id: None,
                trigger_threshold_dbfs: f32c(0xc248_0000),
            },
            microphone: MicrophoneConfig {
                mode: "default".to_owned(),
                device_id: None,
                trigger_threshold_dbfs: f32c(0xc248_0000),
            },
        }
    }
}

/// The shipped value of a `OscConfig`.
pub open spec fn default_osc(r: OscConfig) -> bool {
    &&& r.port == 9000
    &&& r.translation_strategy@ == "preferred_only"@
}

impl Default for OscConfig {
    fn default() -> (r: Self)
        ensures
            default_osc(r),
    {
        OscConfig { port: 9000, translation_strategy: "preferred_only".to_owned() }
    }
}

/// The shipped value of a `AnkiConfig`.
pub open spec fn default_anki(r: AnkiConfig) -> bool {
    &&& r.port == 8765
    &&& r.deck@ == "VRCS"@
    &&& r.model@ == "Basic"@
    &&& r.front_field@ == "Front"@
    &&& r.back_field@ == "Back"@
}

impl Default for AnkiConfig {
    fn default() -> (r: Self)
        ensures
            default_anki(r),
    {
        AnkiConfig {
            port: 8765,
            deck: "VRCS".to_owned(),
            model: "Basic".to_owned(),
            front_field: "Front".to_owned(),
            back_field: "Back".to_owned(),
        }
    }
}

/// The shipped value of a `VrOverlayHeadsetConfig`.
pub open spec fn default_headset(r: VrOverlayHeadsetConfig) -> bool {
    &&& r.content_mode@ == "bilingual"@
    &&& r.offset_x_m.bits == 0
    &&& r.offset_y_m.bits == 0xbe19_999a
    &&& r.distance_m.bits == 0x3f80_0000
    &&& r.pitch_deg.bits == 0
    &&& r.yaw_deg.bits == 0
    &&& r.roll_deg.bits == 0
    &&& r.width_m.bits == 0x3f80_0000
    &&& r.opacity.bits == 0x3f66_6666
    &&& r.display_seconds.bits == 0x40a0_0000
    &&& r.fade_seconds.bits == 0x3f80_0000
    &&& r.font_size_px == 40
    &&& r.background_opacity.bits == 0x3f19_999a
    &&& !r.show_partials
    &&& !r.show_translation_partials
    &&& r.include_speaker
    &&& !r.include_microphone
    &&& !r.include_chatbox
}

impl Default for VrOverlayHeadsetConfig {
    /// Bilingual final text of remote speech 1 m ahead and 0.15 m low, 1 m wide, shown 5 s and faded over 1 s.
    fn default() -> (r: Self)
        ensures
            default_headset(r),
    {
        VrOverlayHeadsetConfig {
            content_mode: "bilingual".to_owned(),
            offset_x_m: f32c(0),
            offset_y_m: f32c(0xbe19_999a),
            distance_m: f32c(0x3f80_0000),
            pitch_deg: f32c(0),
            yaw_deg: f32c(0),
            roll_deg: f32c(0),
            width_m: f32c(0x3f80_0000),
            opacity: f32c(0x3f66_6666),
            display_seconds: f32c(0x40a0_0000),
            fade_seconds: f32c(0x3f80_0000),
            font_size_px: 40,
            background_opacity: f32c(0x3f19_999a),
            show_partials: false,
            show_translation_partials: false,
            include_speaker: true,
            include_microphone: false,
            include_chatbox: false,
        }
    }
}

/// The shipped value of a `VrOverlayWristConfig`.
pub open spec fn default_wrist(r: VrOverlayWristConfig) -> bool {
    &&& r.hand@ == "left"@
    &&& r.dominant_hand@ == "right"@
    &&& r.content_mode@ == "bilingual"@
    &&& r.max_entries == 5
    &&& r.idle_hide_seconds == 0
    &&& r.offset_x_m.bits == 0
    &&& r.offset_y_m.bits == 0
    &&& r.offset_z_m.bits == 0
    &&& r.pitch_deg.bits == 0
    &&& r.yaw_deg.bits == 0
    &&& r.roll_deg.bits == 0
    &&& r.width_m.bits == 0x3e99_999a
    &&& r.opacity.bits == 0x3f73_3333
    &&& r.font_size_px == 28
    &&& r.background_opacity.bits == 0x3f33_3333
    &&& !r.show_partials
    &&& !r.show_translation_partials
    &&& r.include_speaker
    &&& !r.include_microphone
    &&& !r.include_chatbox
}

impl Default for VrOverlayWristConfig {
    /// Five bilingual entries of remote speech on the left wrist, 0.3 m wide, never hidden when idle.
    fn default() -> (r: Self)
        ensures
            default_wrist(r),
    {
        VrOverlayWristConfig {
            hand: "left".to_owned(),
            dominant_hand: "right".to_owned(),
            content_mode: "bilingual".to_owned(),
            max_entries: 5,
            idle_hide_seconds: 0,
            offset_x_m: f32c(0),
            offset_y_m: f32c(0),
            offset_z_m: f32c(0),
            pitch_deg: f32c(0),
            yaw_deg: f32c(0),
            roll_deg: f32c(0),
            width_m: f32c(0x3e99_999a),
            opacity: f32c(0x3f73_3333),
            font_size_px: 28,
            background_opacity: f32c(0x3f33_3333),
            show_partials: false,
            show_translation_partials: false,
            include_speaker: true,
            include_microphone: false,
            include_chatbox: false,
        }
    }
}

/// The shipped value of a `VrOverlayConfig`.
pub open spec fn default_overlay(r: VrOverlayConfig) -> bool {
    &&& r.translation_display@ == "preferred_only"@
    &&& default_headset(r.headset)
    &&& default_wrist(r.wrist)
}

impl Default for VrOverlayConfig {
    fn default() -> (r: Self)
        ensures
            default_overlay(r),
            crate::overlay_rules::overlay_err(r).is_none(),
    {
        let r = VrOverlayConfig {
            translation_display: "preferred_only".to_owned(),
            headset: VrOverlayHeadsetConfig::default(),
            wrist: VrOverlayWristConfig::default(),
        };
        proof {
            crate::overlay_rules::lemma_default_overlay_valid(r);
        }
        r
    }
}

/// The shipped value of a `AppConfig`.
pub open spec fn default_app(r: AppConfig) -> bool {
    &&& r.server.port == 8766
    &&& r.storage.subtitle_history_max_bytes == 1_073_741_824
    &&& r.storage.model_directory@ == "models"@
    &&& r.external_api.host@ == "127.0.0.1"@
    &&& r.external_api.port == 8767
    &&& !r.external_api.require_token
    &&& r.vrcx.port == 8768
    &&& r.language_presets@.len() == 0
    &&& default_audio(r.audio)
    &&& default_vad(r.vad)
    &&& default_asr(r.asr)
    &&& default_glossary(r.glossary)
    &&& default_translation(r.translation)
    &&& default_osc(r.osc)
    &&& default_anki(r.anki)
    &&& default_overlay(r.vr_overlay)
}

impl Default for AppConfig {
    fn default() -> (r: Self)
        ensures
            default_app(r),
            crate::validation::settings_err(r).is_none(),
    {
        let r = AppConfig {
            server: ServerConfig { port: 8766 },
            storage: StorageConfig {
                subtitle_history_max_bytes: 1_073_741_824,
                model_directory: "models".to_owned(),
            },
            external_api: ExternalApiConfig {
                host: "127.0.0.1".to_owned(),
                port: 8767,
                require_token: false,
            },
            vrcx: VrcxConfig { port: 8768 },
            audio: AudioConfig::default(),
            vad: VadConfig::default(),
            asr: AsrConfig::default(),
            glossary: GlossaryConfig::default(),
            translation: TranslationConfig::default(),
            language_presets: Vec::new(),
            osc: OscConfig::default(),
            anki: AnkiConfig::default(),
            vr_overlay: VrOverlayConfig::default(),
        };
        proof {
            crate::validation::lemma_default_settings_valid(r);
        }
        r
    }
}

} // verus!
