//! The structural rules of the settings file: each check has a spec function
//! that names the first rule a value breaks, and the executable check returns
//! exactly that message.
use vstd::prelude::*;

use crate::config::{
    AnkiConfig, AppConfig, AsrConfig, AudioConfig, ExternalApiConfig, OscConfig, ServerConfig,
    StorageConfig, VadConfig, VrcxConfig,
};
use crate::glossary_rules::{glossary_err, validate_glossary};
use crate::overlay_rules::{overlay_err, validate_vr_overlay};
use crate::profile_rules::{api_profiles_err, validate_api_profiles};
use crate::translation_rules::{
    presets_err, translation_err, validate_language_presets, validate_translation,
};
use crate::float_bits::{in_range, in_range_bits, lemma_bits_arith, lt, lt_bits, F32};
use crate::ip::{ip_loopback, parse_ip_loopback};
use crate::providers::{
    model_spec, recognition_model_supported, recognition_service, service_context_max,
    service_from, str_in, str_views, SERVICE_FUN_ASR_REALTIME,
};
use crate::rules::{err_of, first_err, lemma_first_err_at, lemma_first_err_none, then};
use crate::service_settings::has_key;
use crate::text::{char_count, concat, concat3, decimal, decimal_string, is_blank, str_eq, trim};

verus! {

/// `0.1` as a binary32 encoding.
pub const F32_0_1: u32 = 0x3dcc_cccd;
/// `0.2` as a binary32 encoding.
pub const F32_0_2: u32 = 0x3e4c_cccd;
/// `1.0` as a binary32 encoding.
pub const F32_1: u32 = 0x3f80_0000;
/// `2.0` as a binary32 encoding.
pub const F32_2: u32 = 0x4000_0000;
/// `30.0` as a binary32 encoding.
pub const F32_30: u32 = 0x41f0_0000;
/// `-80.0` as a binary32 encoding.
pub const F32_MINUS_80: u32 = 0xc2a0_0000;
/// `-10.0` as a binary32 encoding.
pub const F32_MINUS_10: u32 = 0xc120_0000;

/// Why a VAD configuration is not acceptable.
pub open spec fn vad_err(v: VadConfig) -> Option<Seq<char>> {
    if v.endpointing@ != "silence"@ && v.endpointing@ != "smart_turn"@ {
        Some("Unsupported VAD endpointing mode: "@ + v.endpointing@)
    } else if !in_range_bits(v.silence_seconds.bits, F32_0_1, F32_2) {
        Some("VAD silence_seconds must be between 0.1 and 2.0"@)
    } else if !in_range_bits(v.max_speech_seconds.bits, F32_1, F32_30) {
        Some("VAD max_speech_seconds must be between 1.0 and 30.0"@)
    } else {
        None
    }
}

impl VadConfig {
    /// Checks the endpointing mode and the two time limits.
    pub fn validate(&self) -> (r: Result<(), String>)
        ensures
            err_of(r) == vad_err(*self),
    {
        let e = self.endpointing.as_str();
        if !str_eq(e, "silence") && !str_eq(e, "smart_turn") {
            return Err(concat("Unsupported VAD endpointing mode: ", e));
        }
        if !in_range(self.silence_seconds, F32::from_bits(F32_0_1), F32::from_bits(F32_2)) {
            return Err("VAD silence_seconds must be between 0.1 and 2.0".to_owned());
        }
        if !in_range(self.max_speech_seconds, F32::from_bits(F32_1), F32::from_bits(F32_30)) {
            return Err("VAD max_speech_seconds must be between 1.0 and 30.0".to_owned());
        }
        Ok(())
    }
}

/// Smallest accepted subtitle history budget: 10 MiB.
pub const MIN_HISTORY_BYTES: u64 = 10_485_760;
/// Largest accepted subtitle history budget: 10 GiB.
pub const MAX_HISTORY_BYTES: u64 = 10_737_418_240;

/// Why the server, storage and integration endpoints are not acceptable.
pub open spec fn runtime_err(
    server: ServerConfig,
    storage: StorageConfig,
    external_api: ExternalApiConfig,
    vrcx: VrcxConfig,
) -> Option<Seq<char>> {
    if server.port == 0 {
        Some("Port must be between 1 and 65535"@)
    } else {
        match ip_loopback(external_api.host@) {
            None => Some("External API host must be an IP address"@),
            Some(loopback) => if external_api.port == 0 {
                Some("External API port must be between 1 and 65535"@)
            } else if !loopback && !external_api.require_token {
                Some("External API token authentication is required outside loopback"@)
            } else if vrcx.port == 0 {
                Some("VRCX-0 Integration API port must be between 1 and 65535"@)
            } else if !(MIN_HISTORY_BYTES <= storage.subtitle_history_max_bytes
                <= MAX_HISTORY_BYTES) {
                Some("subtitle_history_max_bytes must be between 10 MiB and 10 GiB"@)
            } else if trim(storage.model_directory@).len() == 0 {
                Some("Model storage path cannot be empty"@)
            } else {
                None
            },
        }
    }
}

fn validate_runtime(
    server: &ServerConfig,
    storage: &StorageConfig,
    external_api: &ExternalApiConfig,
    vrcx: &VrcxConfig,
) -> (r: Result<(), String>)
    ensures
        err_of(r) == runtime_err(*server, *storage, *external_api, *vrcx),
{
    if server.port == 0 {
        return Err("Port must be between 1 and 65535".to_owned());
    }
    let loopback = match parse_ip_loopback(external_api.host.as_str()) {
        None => {
            return Err("External API host must be an IP address".to_owned());
        },
        Some(b) => b,
    };
    if external_api.port == 0 {
        return Err("External API port must be between 1 and 65535".to_owned());
    }
    if !loopback && !external_api.require_token {
        return Err("External API token authentication is required outside loopback".to_owned());
    }
    if vrcx.port == 0 {
        return Err("VRCX-0 Integration API port must be between 1 and 65535".to_owned());
    }
    if !(MIN_HISTORY_BYTES <= storage.subtitle_history_max_bytes
        && storage.subtitle_history_max_bytes <= MAX_HISTORY_BYTES) {
        return Err("subtitle_history_max_bytes must be between 10 MiB and 10 GiB".to_owned());
    }
    if is_blank(storage.model_directory.as_str()) {
        return Err("Model storage path cannot be empty".to_owned());
    }
    Ok(())
}

/// Why the audio configuration is not acceptable; the VAD rules come last.
pub open spec fn audio_err(audio: AudioConfig, vad: VadConfig) -> Option<Seq<char>> {
    let out = audio.output.mode@;
    let mic = audio.microphone.mode@;
    if !(8000 <= audio.sample_rate <= 96000) {
        Some("Sample rate must be between 8000 and 96000"@)
    } else if out != "system"@ && out != "vrchat"@ && out != "disabled"@ {
        Some("Unsupported output mode: "@ + out)
    } else if out != "system"@ && audio.output.device_id.is_some() {
        Some("VRChat or disabled output mode cannot specify a system output device"@)
    } else if !in_range_bits(
        audio.output.trigger_threshold_dbfs.bits,
        F32_MINUS_80,
        F32_MINUS_10,
    ) {
        Some("Output trigger_threshold_dbfs must be between -80 and -10"@)
    } else if mic != "device"@ && mic != "default"@ && mic != "disabled"@ {
        Some("Unsupported microphone mode: "@ + mic)
    } else if mic == "device"@ && audio.microphone.device_id.is_none() {
        Some("A device must be selected in microphone device mode"@)
    } else if mic != "device"@ && audio.microphone.device_id.is_some() {
        Some("Default or disabled microphone mode cannot specify a device"@)
    } else if !in_range_bits(
        audio.microphone.trigger_threshold_dbfs.bits,
        F32_MINUS_80,
        F32_MINUS_10,
    ) {
        Some("Microphone trigger_threshold_dbfs must be between -80 and -10"@)
    } else {
        vad_err(vad)
    }
}

fn validate_audio(audio: &AudioConfig, vad: &VadConfig) -> (r: Result<(), String>)
    ensures
        err_of(r) == audio_err(*audio, *vad),
{
    if !(8000 <= audio.sample_rate && audio.sample_rate <= 96000) {
        return Err("Sample rate must be between 8000 and 96000".to_owned());
    }
    let out = audio.output.mode.as_str();
    let system = str_eq(out, "system");
    if !system && !str_eq(out, "vrchat") && !str_eq(out, "disabled") {
        return Err(concat("Unsupported output mode: ", out));
    }
    if !system && audio.output.device_id.is_some() {
        return Err(
            "VRChat or disabled output mode cannot specify a system output device".to_owned(),
        );
    }
    let low = F32::from_bits(F32_MINUS_80);
    let high = F32::from_bits(F32_MINUS_10);
    if !in_range(audio.output.trigger_threshold_dbfs, low, high) {
        return Err("Output trigger_threshold_dbfs must be between -80 and -10".to_owned());
    }
    let mic = audio.microphone.mode.as_str();
    let device = str_eq(mic, "device");
    if !device && !str_eq(mic, "default") && !str_eq(mic, "disabled") {
        return Err(concat("Unsupported microphone mode: ", mic));
    }
    if device && audio.microphone.device_id.is_none() {
        return Err("A device must be selected in microphone device mode".to_owned());
    }
    if !device && audio.microphone.device_id.is_some() {
        return Err("Default or disabled microphone mode cannot specify a device".to_owned());
    }
    if !in_range(audio.microphone.trigger_threshold_dbfs, low, high) {
        return Err("Microphone trigger_threshold_dbfs must be between -80 and -10".to_owned());
    }
    vad.validate()
}

/// The recognition languages a user can pick.
pub open spec fn asr_language_list() -> Seq<&'static str> {
    seq!["auto", "en", "ja", "zh", "ko", "es", "fr", "de"]
}

/// The recognition languages, as an executable list.
pub fn asr_languages() -> (r: Vec<&'static str>)
    ensures
        r@ == asr_language_list(),
{
    let v = vec!["auto", "en", "ja", "zh", "ko", "es", "fr", "de"];
    assert(v@ =~= asr_language_list());
    v
}

/// Why the recognition options are not acceptable.
pub open spec fn recognition_options_err(asr: AsrConfig) -> Option<Seq<char>> {
    let backend = asr.backend@;
    let local = backend == "local_whisper"@;
    if !local && service_from(backend).is_none() {
        Some("Unsupported recognition backend: "@ + backend)
    } else if !str_views(asr_language_list()).contains(asr.language@) {
        Some("Unsupported recognition language: "@ + asr.language@)
    } else if asr.local.device@ != "auto"@ && asr.local.device@ != "cpu"@ && asr.local.device@
        != "cuda"@ {
        Some("Unsupported recognition device: "@ + asr.local.device@)
    } else if asr.local.compute_type@ != "int8"@ {
        Some("Unsupported compute type: "@ + asr.local.compute_type@)
    } else if asr.cloud_failure_policy@ != "reconnect"@ && asr.cloud_failure_policy@ != "local"@ {
        Some("Unsupported cloud failure policy: "@ + asr.cloud_failure_policy@)
    } else if !local && !has_key(asr.service_settings@, backend) {
        Some("Recognition service settings are missing for backend: "@ + backend)
    } else {
        None
    }
}

fn validate_recognition_options(asr: &AsrConfig) -> (r: Result<(), String>)
    ensures
        err_of(r) == recognition_options_err(*asr),
{
    let backend = asr.backend.as_str();
    let local = str_eq(backend, "local_whisper");
    if !local && recognition_service(backend).is_none() {
        return Err(concat("Unsupported recognition backend: ", backend));
    }
    if !str_in(asr.language.as_str(), &asr_languages()) {
        return Err(concat("Unsupported recognition language: ", asr.language.as_str()));
    }
    let device = asr.local.device.as_str();
    if !str_eq(device, "auto") && !str_eq(device, "cpu") && !str_eq(device, "cuda") {
        return Err(concat("Unsupported recognition device: ", device));
    }
    if !str_eq(asr.local.compute_type.as_str(), "int8") {
        return Err(concat("Unsupported compute type: ", asr.local.compute_type.as_str()));
    }
    let policy = asr.cloud_failure_policy.as_str();
    if !str_eq(policy, "reconnect") && !str_eq(policy, "local") {
        return Err(concat("Unsupported cloud failure policy: ", policy));
    }
    if !local && !asr.service_settings.contains_key(backend) {
        return Err(concat("Recognition service settings are missing for backend: ", backend));
    }
    Ok(())
}

/// Why the OSC output is not acceptable.
pub open spec fn osc_err(osc: OscConfig) -> Option<Seq<char>> {
    let s = osc.translation_strategy@;
    if osc.port == 0 {
        Some("OSC port must be between 1 and 65535"@)
    } else if s != "preferred_only"@ && s != "round_robin"@ && s != "all_languages"@ {
        Some("Unsupported OSC translation strategy: "@ + s)
    } else {
        None
    }
}

/// Whether `s` is one of the OSC translation strategies.
pub fn is_osc_strategy(s: &str) -> (r: bool)
    ensures
        r == (s@ == "preferred_only"@ || s@ == "round_robin"@ || s@ == "all_languages"@),
{
    str_eq(s, "preferred_only") || str_eq(s, "round_robin") || str_eq(s, "all_languages")
}

fn validate_osc(osc: &OscConfig) -> (r: Result<(), String>)
    ensures
        err_of(r) == osc_err(*osc),
{
    if osc.port == 0 {
        return Err("OSC port must be between 1 and 65535".to_owned());
    }
    if !is_osc_strategy(osc.translation_strategy.as_str()) {
        return Err(
            concat("Unsupported OSC translation strategy: ", osc.translation_strategy.as_str()),
        );
    }
    Ok(())
}

/// Why the `i`-th recognition service entry is not acceptable.
pub open spec fn service_entry_err(entries: Seq<(Seq<char>, (Seq<char>, Seq<char>))>, i: int) -> Option<
    Seq<char>,
> {
    let key = entries[i].0;
    let model = entries[i].1.0;
    let context = entries[i].1.1;
    match service_from(key) {
        None => Some("Unsupported recognition service settings: "@ + key),
        Some(service) => if !model_spec(model) {
            Some("Unsupported model for recognition service "@ + key + ": "@ + model)
        } else {
            match service_context_max(service) {
                Some(max) => if context.len() > max {
                    Some(
                        "Recognition service "@ + key + " context cannot exceed "@ + decimal(max)
                            + " characters"@,
                    )
                } else {
                    None
                },
                None => if context.len() > 0 {
                    Some("Recognition service "@ + key + " does not support context"@)
                } else {
                    None
                },
            }
        },
    }
}

/// The service entry checks, one per position.
pub open spec fn service_entry_checks(entries: Seq<(Seq<char>, (Seq<char>, Seq<char>))>) -> spec_fn(
    int,
) -> Option<Seq<char>> {
    |i: int| service_entry_err(entries, i)
}

/// Why the recognition service settings are not acceptable: entries in key
/// order, then the silence Fun-ASR needs.
pub open spec fn recognition_models_err(asr: AsrConfig, vad: VadConfig) -> Option<Seq<char>> {
    let entries = asr.service_settings@;
    let e = first_err(service_entry_checks(entries), 0, entries.len() as int);
    if e.is_some() {
        e
    } else if asr.backend@ == SERVICE_FUN_ASR_REALTIME@ && lt_bits(
        vad.silence_seconds.bits,
        F32_0_2,
    ) {
        Some("Fun-ASR realtime recognition requires at least 0.2 seconds of silence"@)
    } else {
        None
    }
}

fn check_service_entry(key: &str, model: &str, context: &str) -> (r: Option<String>)
    ensures
        opt_text(r) == service_entry_err(seq![(key@, (model@, context@))], 0),
{
    let service = match recognition_service(key) {
        None => {
            return Some(concat("Unsupported recognition service settings: ", key));
        },
        Some(s) => s,
    };
    if !recognition_model_supported(service, model) {
        let head = concat3("Unsupported model for recognition service ", key, ": ");
        return Some(concat(head.as_str(), model));
    }
    match service.context_max_chars() {
        Some(max) => {
            if char_count(context) > max {
                let head = concat3("Recognition service ", key, " context cannot exceed ");
                let n = decimal_string(max as u64);
                return Some(concat3(head.as_str(), n.as_str(), " characters"));
            }
        },
        None => {
            if char_count(context) > 0 {
                return Some(concat3("Recognition service ", key, " does not support context"));
            }
        },
    }
    None
}

/// The text an optional message holds.
pub open spec fn opt_text(o: Option<String>) -> Option<Seq<char>> {
    match o {
        Some(s) => Some(s@),
        None => None,
    }
}

fn validate_recognition_models(asr: &AsrConfig, vad: &VadConfig) -> (r: Result<(), String>)
    ensures
        err_of(r) == recognition_models_err(*asr, *vad),
{
    let settings = &asr.service_settings;
    let ghost entries = settings@;
    let ghost f = service_entry_checks(entries);
    let mut i: usize = 0;
    while i < settings.len()
        invariant
            i <= settings@.len(),
            entries == settings@,
            entries == asr.service_settings@,
            f == service_entry_checks(entries),
            forall|j: int| 0 <= j < i ==> #[trigger] f(j).is_none(),
        decreases settings@.len() - i,
    {
        let (key, value) = settings.entry(i);
        let err = check_service_entry(key.as_str(), value.model.as_str(), value.context.as_str());
        assert(service_entry_err(seq![(key@, (value.model@, value.context@))], 0) == f(i as int));
        match err {
            Some(e) => {
                proof {
                    lemma_first_err_at(f, 0, entries.len() as int, i as int);
                }
                return Err(e);
            },
            None => {},
        }
        i = i + 1;
    }
    proof {
        lemma_first_err_none(f, 0, entries.len() as int);
    }
    if str_eq(asr.backend.as_str(), SERVICE_FUN_ASR_REALTIME) && lt(
        vad.silence_seconds,
        F32::from_bits(F32_0_2),
    ) {
        return Err(
            "Fun-ASR realtime recognition requires at least 0.2 seconds of silence".to_owned(),
        );
    }
    Ok(())
}

/// Why an Anki field name is not acceptable.
pub open spec fn anki_name_err(label: Seq<char>, value: Seq<char>) -> Option<Seq<char>> {
    if value.len() == 0 || value.len() > 100 {
        Some("Anki "@ + label + " name must contain 1 to 100 characters"@)
    } else {
        None
    }
}

/// Why the Anki export is not acceptable.
pub open spec fn anki_err(anki: AnkiConfig) -> Option<Seq<char>> {
    if anki.port == 0 {
        Some("AnkiConnect port must be between 1 and 65535"@)
    } else if anki_name_err("deck"@, anki.deck@).is_some() {
        anki_name_err("deck"@, anki.deck@)
    } else if anki_name_err("note type"@, anki.model@).is_some() {
        anki_name_err("note type"@, anki.model@)
    } else if anki_name_err("front field"@, anki.front_field@).is_some() {
        anki_name_err("front field"@, anki.front_field@)
    } else if anki_name_err("back field"@, anki.back_field@).is_some() {
        anki_name_err("back field"@, anki.back_field@)
    } else if anki.front_field@ == anki.back_field@ {
        Some("Anki front and back fields cannot map to the same field"@)
    } else {
        None
    }
}

fn check_anki_name(label: &str, value: &str) -> (r: Result<(), String>)
    ensures
        err_of(r) == anki_name_err(label@, value@),
{
    let n = char_count(value);
    if n == 0 || n > 100 {
        return Err(concat3("Anki ", label, " name must contain 1 to 100 characters"));
    }
    Ok(())
}

fn validate_anki(anki: &AnkiConfig) -> (r: Result<(), String>)
    ensures
        err_of(r) == anki_err(*anki),
{
    if anki.port == 0 {
        return Err("AnkiConnect port must be between 1 and 65535".to_owned());
    }
    check_anki_name("deck", anki.deck.as_str())?;
    check_anki_name("note type", anki.model.as_str())?;
    check_anki_name("front field", anki.front_field.as_str())?;
    check_anki_name("back field", anki.back_field.as_str())?;
    if str_eq(anki.front_field.as_str(), anki.back_field.as_str()) {
        return Err("Anki front and back fields cannot map to the same field".to_owned());
    }
    Ok(())
}

/// Why a whole configuration is not acceptable: the first rule it breaks, in
/// the order runtime, audio, recognition options, API profiles, glossary,
/// translation, language presets, OSC, recognition models, Anki, VR overlay.
pub open spec fn settings_err(c: AppConfig) -> Option<Seq<char>> {
    let profiles = c.asr.api_profiles@;
    let backend = c.asr.backend@;
    then(
        runtime_err(c.server, c.storage, c.external_api, c.vrcx),
        then(
            audio_err(c.audio, c.vad),
            then(
                recognition_options_err(c.asr),
                then(
                    api_profiles_err(c.asr),
                    then(
                        glossary_err(c.glossary),
                        then(
                            translation_err(c.translation, profiles, backend),
                            then(
                                presets_err(c.language_presets@, profiles, backend),
                                then(
                                    osc_err(c.osc),
                                    then(
                                        recognition_models_err(c.asr, c.vad),
                                        then(anki_err(c.anki), overlay_err(c.vr_overlay)),
                                    ),
                                ),
                            ),
                        ),
                    ),
                ),
            ),
        ),
    )
}

impl AppConfig {
    /// The complete structural check shared by the settings file and the
    /// settings API; `Ok` exactly when no rule is broken, else the first
    /// broken rule's message.
    pub fn validate_settings(&self) -> (r: Result<(), String>)
        ensures
            err_of(r) == settings_err(*self),
    {
        validate_runtime(&self.server, &self.storage, &self.external_api, &self.vrcx)?;
        validate_audio(&self.audio, &self.vad)?;
        validate_recognition_options(&self.asr)?;
        validate_api_profiles(&self.asr)?;
        validate_glossary(&self.glossary)?;
        validate_translation(&self.translation, &self.asr.api_profiles, self.asr.backend.as_str())?;
        validate_language_presets(
            &self.language_presets,
            &self.asr.api_profiles,
            self.asr.backend.as_str(),
        )?;
        validate_osc(&self.osc)?;
        validate_recognition_models(&self.asr, &self.vad)?;
        validate_anki(&self.anki)?;
        validate_vr_overlay(&self.vr_overlay)?;
        Ok(())
    }
}

/// `127.0.0.1` is a loopback address.
proof fn lemma_localhost_is_loopback()
    ensures
        ip_loopback("127.0.0.1"@) == Some(true),
{
    reveal_strlit("127.0.0.1");
    let s = "127.0.0.1"@;
    let a = seq!['1', '2', '7'];
    let z = seq!['0'];
    let o = seq!['1'];
    assert(s.take(1) =~= seq!['1']);
    assert(s.take(2) =~= seq!['1', '2']);
    assert(s.take(3) =~= a);
    assert(crate::ip::split(s.take(1), '.') =~~= seq![seq!['1']]) by {
        assert(s.take(1).drop_last() =~= Seq::<char>::empty());
        assert(crate::ip::split(Seq::<char>::empty(), '.') =~~= seq![Seq::<char>::empty()]);
    }
    assert(crate::ip::split(s.take(2), '.') =~~= seq![seq!['1', '2']]) by {
        assert(s.take(2).drop_last() =~= s.take(1));
    }
    assert(crate::ip::split(s.take(3), '.') =~~= seq![a]) by {
        assert(s.take(3).drop_last() =~= s.take(2));
    }
    assert(crate::ip::split(s.take(4), '.') =~~= seq![a, Seq::empty()]) by {
        assert(s.take(4).drop_last() =~= s.take(3));
    }
    assert(crate::ip::split(s.take(5), '.') =~~= seq![a, z]) by {
        assert(s.take(5).drop_last() =~= s.take(4));
    }
    assert(crate::ip::split(s.take(6), '.') =~~= seq![a, z, Seq::empty()]) by {
        assert(s.take(6).drop_last() =~= s.take(5));
    }
    assert(crate::ip::split(s.take(7), '.') =~~= seq![a, z, z]) by {
        assert(s.take(7).drop_last() =~= s.take(6));
    }
    assert(crate::ip::split(s.take(8), '.') =~~= seq![a, z, z, Seq::empty()]) by {
        assert(s.take(8).drop_last() =~= s.take(7));
    }
    assert(crate::ip::split(s, '.') =~~= seq![a, z, z, o]) by {
        assert(s.drop_last() =~= s.take(8));
    }
    assert(crate::ip::dec_number(a) == 127) by {
        reveal_with_fuel(crate::ip::dec_number, 4);
    }
    assert(crate::ip::dec_number(z) == 0) by {
        reveal_with_fuel(crate::ip::dec_number, 2);
    }
    assert(crate::ip::dec_number(o) == 1) by {
        reveal_with_fuel(crate::ip::dec_number, 2);
    }
    assert(crate::ip::dec_octet(a));
    assert(crate::ip::dec_octet(z));
    assert(crate::ip::dec_octet(o));
}

/// The shipped server, storage and integration endpoints are valid.
proof fn lemma_default_runtime_valid(c: AppConfig)
    requires
        crate::config::default_app(c),
    ensures
        runtime_err(c.server, c.storage, c.external_api, c.vrcx).is_none(),
{
    lemma_localhost_is_loopback();
    reveal_strlit("models");
}

/// The shipped audio and VAD settings are valid.
proof fn lemma_default_audio_valid(c: AppConfig)
    requires
        crate::config::default_app(c),
    ensures
        audio_err(c.audio, c.vad).is_none(),
{
    reveal_strlit("system");
    reveal_strlit("vrchat");
    reveal_strlit("default");
    reveal_strlit("device");
    reveal_strlit("silence");
    lemma_bits_arith(0xc248_0000u32);
    lemma_bits_arith(F32_MINUS_80);
    lemma_bits_arith(F32_MINUS_10);
    lemma_bits_arith(0x3f00_0000u32);
    lemma_bits_arith(F32_0_1);
    lemma_bits_arith(F32_2);
    lemma_bits_arith(0x4170_0000u32);
    lemma_bits_arith(F32_1);
    lemma_bits_arith(F32_30);
    reveal_strlit("disabled");
    reveal_strlit("smart_turn");
    assert(in_range_bits(c.audio.output.trigger_threshold_dbfs.bits, F32_MINUS_80, F32_MINUS_10));
    assert(in_range_bits(c.audio.microphone.trigger_threshold_dbfs.bits, F32_MINUS_80, F32_MINUS_10));
    assert(vad_err(c.vad).is_none());
    assert(c.audio.output.mode@ == "system"@);
    assert(c.audio.microphone.mode@ == "default"@);
    assert("default"@[2] != "device"@[2]);
    assert(8000 <= c.audio.sample_rate <= 96000);
}

/// The models the recognition services start with are valid model names.
proof fn lemma_default_models_named()
    ensures
        model_spec("gemini-3.5-live-translate-preview"@),
        model_spec("qwen3-asr-flash-realtime"@),
        model_spec("fun-asr-realtime"@),
        model_spec("qwen-audio-3.0-realtime-plus"@),
        model_spec("gpt-4o-mini-transcribe"@),
        model_spec("gpt-realtime-translate"@),
        model_spec("whisper-large-v3-turbo"@),
        model_spec("gemini-3.5-transcribe-live"@),
{
    reveal_strlit("gemini-3.5-live-translate-preview");
    assert forall|i: int| 0 <= i < 33 implies crate::providers::model_name_char(#[trigger] "gemini-3.5-live-translate-preview"@[i]) by {
        assert(i == 0 || i == 1 || i == 2 || i == 3 || i == 4 || i == 5 || i == 6 || i == 7 || i == 8 || i == 9 || i == 10 || i == 11 || i == 12 || i == 13 || i == 14 || i == 15 || i == 16 || i == 17 || i == 18 || i == 19 || i == 20 || i == 21 || i == 22 || i == 23 || i == 24 || i == 25 || i == 26 || i == 27 || i == 28 || i == 29 || i == 30 || i == 31 || i == 32);
    }
    reveal_strlit("qwen3-asr-flash-realtime");
    assert forall|i: int| 0 <= i < 24 implies crate::providers::model_name_char(#[trigger] "qwen3-asr-flash-realtime"@[i]) by {
        assert(i == 0 || i == 1 || i == 2 || i == 3 || i == 4 || i == 5 || i == 6 || i == 7 || i == 8 || i == 9 || i == 10 || i == 11 || i == 12 || i == 13 || i == 14 || i == 15 || i == 16 || i == 17 || i == 18 || i == 19 || i == 20 || i == 21 || i == 22 || i == 23);
    }
    reveal_strlit("fun-asr-realtime");
    assert forall|i: int| 0 <= i < 16 implies crate::providers::model_name_char(#[trigger] "fun-asr-realtime"@[i]) by {
        assert(i == 0 || i == 1 || i == 2 || i == 3 || i == 4 || i == 5 || i == 6 || i == 7 || i == 8 || i == 9 || i == 10 || i == 11 || i == 12 || i == 13 || i == 14 || i == 15);
    }
    reveal_strlit("qwen-audio-3.0-realtime-plus");
    assert forall|i: int| 0 <= i < 28 implies crate::providers::model_name_char(#[trigger] "qwen-audio-3.0-realtime-plus"@[i]) by {
        assert(i == 0 || i == 1 || i == 2 || i == 3 || i == 4 || i == 5 || i == 6 || i == 7 || i == 8 || i == 9 || i == 10 || i == 11 || i == 12 || i == 13 || i == 14 || i == 15 || i == 16 || i == 17 || i == 18 || i == 19 || i == 20 || i == 21 || i == 22 || i == 23 || i == 24 || i == 25 || i == 26 || i == 27);
    }
    reveal_strlit("gpt-4o-mini-transcribe");
    assert forall|i: int| 0 <= i < 22 implies crate::providers::model_name_char(#[trigger] "gpt-4o-mini-transcribe"@[i]) by {
        assert(i == 0 || i == 1 || i == 2 || i == 3 || i == 4 || i == 5 || i == 6 || i == 7 || i == 8 || i == 9 || i == 10 || i == 11 || i == 12 || i == 13 || i == 14 || i == 15 || i == 16 || i == 17 || i == 18 || i == 19 || i == 20 || i == 21);
    }
    reveal_strlit("gpt-realtime-translate");
    assert forall|i: int| 0 <= i < 22 implies crate::providers::model_name_char(#[trigger] "gpt-realtime-translate"@[i]) by {
        assert(i == 0 || i == 1 || i == 2 || i == 3 || i == 4 || i == 5 || i == 6 || i == 7 || i == 8 || i == 9 || i == 10 || i == 11 || i == 12 || i == 13 || i == 14 || i == 15 || i == 16 || i == 17 || i == 18 || i == 19 || i == 20 || i == 21);
    }
    reveal_strlit("whisper-large-v3-turbo");
    assert forall|i: int| 0 <= i < 22 implies crate::providers::model_name_char(#[trigger] "whisper-large-v3-turbo"@[i]) by {
        assert(i == 0 || i == 1 || i == 2 || i == 3 || i == 4 || i == 5 || i == 6 || i == 7 || i == 8 || i == 9 || i == 10 || i == 11 || i == 12 || i == 13 || i == 14 || i == 15 || i == 16 || i == 17 || i == 18 || i == 19 || i == 20 || i == 21);
    }
    reveal_strlit("gemini-3.5-transcribe-live");
    assert forall|i: int| 0 <= i < 26 implies crate::providers::model_name_char(#[trigger] "gemini-3.5-transcribe-live"@[i]) by {
        assert(i == 0 || i == 1 || i == 2 || i == 3 || i == 4 || i == 5 || i == 6 || i == 7 || i == 8 || i == 9 || i == 10 || i == 11 || i == 12 || i == 13 || i == 14 || i == 15 || i == 16 || i == 17 || i == 18 || i == 19 || i == 20 || i == 21 || i == 22 || i == 23 || i == 24 || i == 25);
    }
}

/// The shipped recognition service settings are valid.
proof fn lemma_default_recognition_models_valid(c: AppConfig)
    requires
        crate::config::default_app(c),
    ensures
        recognition_models_err(c.asr, c.vad).is_none(),
{
    let entries = c.asr.service_settings@;
    let f = service_entry_checks(entries);
    lemma_default_models_named();
    assert forall|j: int| 0 <= j < entries.len() implies #[trigger] f(j).is_none() by {
        c.asr.service_settings.lemma_entry_lookup(j);
        let key = entries[j].0;
        assert(crate::service_settings::lookup(entries, key).is_some());
        assert(entries[j].1.1.len() == 0);
    }
    lemma_first_err_none(f, 0, entries.len() as int);
    reveal_strlit("qwen_realtime");
    reveal_strlit("fun_asr_realtime");
    assert(crate::providers::SERVICE_QWEN_REALTIME@[0] != SERVICE_FUN_ASR_REALTIME@[0]);
}

/// The shipped recognition options, API profiles, glossary, presets, OSC and
/// Anki settings are valid.
proof fn lemma_default_misc_valid(c: AppConfig)
    requires
        crate::config::default_app(c),
    ensures
        recognition_options_err(c.asr).is_none(),
        api_profiles_err(c.asr).is_none(),
        glossary_err(c.glossary).is_none(),
        presets_err(c.language_presets@, c.asr.api_profiles@, c.asr.backend@).is_none(),
        osc_err(c.osc).is_none(),
        anki_err(c.anki).is_none(),
{
    reveal_strlit("qwen_realtime");
    reveal_strlit("local_whisper");
    reveal_strlit("auto");
    reveal_strlit("Front");
    reveal_strlit("Back");
    reveal_strlit("VRCS");
    reveal_strlit("Basic");
    assert(crate::providers::SERVICE_QWEN_REALTIME@[0] != "local_whisper"@[0]);
    assert(str_views(asr_language_list())[0] == "auto"@);
    assert(c.asr.service_settings@ == c.asr.service_settings@);
    assert(crate::service_settings::lookup(c.asr.service_settings@, crate::providers::SERVICE_QWEN_REALTIME@).is_some());
    assert("Front"@[0] != "Back"@[0]);
}

/// The shipped configuration passes every settings rule.
pub proof fn lemma_default_settings_valid(c: AppConfig)
    requires
        crate::config::default_app(c),
    ensures
        settings_err(c).is_none(),
{
    lemma_default_runtime_valid(c);
    lemma_default_audio_valid(c);
    lemma_default_misc_valid(c);
    crate::translation_rules::lemma_default_translation_valid(c.translation, c.asr.api_profiles@, c.asr.backend@);
    lemma_default_recognition_models_valid(c);
    crate::overlay_rules::lemma_default_overlay_valid(c.vr_overlay);
}


/// Device microphone mode needs a device: an audio section in that mode with
/// no device is refused, and so are settings that hold it.
pub proof fn lemma_device_mode_needs_a_device(c: AppConfig)
    requires
        c.audio.microphone.mode@ == "device"@,
        c.audio.microphone.device_id is None,
    ensures
        audio_err(c.audio, c.vad) is Some,
        settings_err(c) is Some,
{
}

} // verus!
