//! Cloud streaming recognition: which protocol adapter serves a service, how
//! audio is segmented, which profile a session uses, and the events a session
//! reports.
use vstd::prelude::*;

use crate::config::{ApiProfile, AsrConfig};
use crate::models::LiveTranslation;
use crate::profile_rules::{find_profile, find_profile_index};
use crate::providers::{
    provider_from, provider_services, recognition_service, resolve_profile_service, resolve_spec,
    parse_provider, service_adapter, service_from, service_id, service_transport,
    RecognitionTransport, ServiceAdapter, ServiceKind,
};
use crate::providers::{SERVICE_OPENAI_REALTIME_TRANSLATE, SERVICE_QWEN_REALTIME, SERVICE_TOKEN_PLAN_REALTIME};
use crate::service_settings::has_key;
use crate::text::{concat, concat3};
use vstd::arithmetic::power::pow;
use vstd::arithmetic::power2::{lemma_pow2, lemma_pow2_pos, lemma_pow2_unfold, pow2};

verus! {

/// One translated or recognized sentence of a live translation session.
#[derive(Clone, Debug, PartialEq, Eq)]
pub struct LiveTranslationResult {
    /// Whether the native translation is still streaming.
    pub pending: bool,
    /// Source sentence ids covered by this translation.
    pub source_utterance_ids: Vec<String>,
    pub provider: String,
    pub transcript: LiveTranslation,
    pub model: String,
}

/// What a cloud recognition session reports.
#[derive(Clone, Debug, PartialEq, Eq)]
pub enum CloudEvent {
    LiveTranslation {
        snapshot: LiveTranslation,
        completed: Vec<LiveTranslationResult>,
        translations: Vec<LiveTranslationResult>,
    },
    Partial { utterance_id: String, text: String, language: Option<String> },
    Final { utterance_id: String, text: String, language: Option<String> },
    Failed { utterance_id: Option<String>, reset_session: bool, code: String, detail: String },
}

/// Who decides where one utterance ends.
#[derive(Clone, Copy, Debug, PartialEq, Eq, Structural)]
pub enum SegmentationMode {
    /// The client commits each utterance.
    LocalCommit,
    /// The service detects the end of speech.
    ServerVad,
    /// The service streams without utterance boundaries.
    Continuous,
}

/// The realtime protocol adapters.
#[derive(Clone, Copy, Debug, PartialEq, Eq, Structural)]
pub enum Provider {
    Qwen,
    TokenPlan,
    FunAsr,
    OpenAi,
    OpenAiLiveTranslate,
    Gemini,
    GeminiLiveTranslate,
}

/// The realtime adapter of a service, or why it has none.
pub open spec fn provider_for(service: Seq<char>) -> Result<Provider, Seq<char>> {
    match service_from(service) {
        None => Err("Service "@ + service + " is not a recognition service"@),
        Some(k) => if service_transport(k) != RecognitionTransport::RealtimeStream {
            Err("Service "@ + service + " is not a realtime cloud recognition service"@)
        } else {
            match service_adapter(k) {
                ServiceAdapter::QwenRealtime => Ok(Provider::Qwen),
                ServiceAdapter::AlibabaTokenPlanRealtime => Ok(Provider::TokenPlan),
                ServiceAdapter::FunAsrRealtime => Ok(Provider::FunAsr),
                ServiceAdapter::OpenAiRealtime => Ok(Provider::OpenAi),
                ServiceAdapter::OpenAiRealtimeTranslate => Ok(Provider::OpenAiLiveTranslate),
                ServiceAdapter::GeminiTranscribe => Ok(Provider::Gemini),
                ServiceAdapter::GeminiLiveTranslate => Ok(Provider::GeminiLiveTranslate),
                _ => Err(
                    "Service "@ + service + " does not have a realtime recognition adapter"@,
                ),
            }
        },
    }
}

/// How an adapter segments audio.
pub open spec fn segmentation_spec(p: Provider) -> SegmentationMode {
    match p {
        Provider::Qwen | Provider::TokenPlan | Provider::OpenAi | Provider::Gemini => {
            SegmentationMode::LocalCommit
        },
        Provider::FunAsr => SegmentationMode::ServerVad,
        Provider::GeminiLiveTranslate | Provider::OpenAiLiveTranslate => SegmentationMode::Continuous,
    }
}

impl Provider {
    /// The realtime adapter of a service.
    pub fn from_service(service_id: &str) -> (r: Result<Provider, String>)
        ensures
            match r {
                Ok(p) => provider_for(service_id@) == Ok::<Provider, Seq<char>>(p),
                Err(e) => provider_for(service_id@) == Err::<Provider, Seq<char>>(e@),
            },
    {
        let k = match recognition_service(service_id) {
            None => {
                return Err(concat3("Service ", service_id, " is not a recognition service"));
            },
            Some(k) => k,
        };
        if k.recognition_transport() != RecognitionTransport::RealtimeStream {
            return Err(
                concat3("Service ", service_id, " is not a realtime cloud recognition service"),
            );
        }
        match k.adapter() {
            ServiceAdapter::QwenRealtime => Ok(Provider::Qwen),
            ServiceAdapter::AlibabaTokenPlanRealtime => Ok(Provider::TokenPlan),
            ServiceAdapter::FunAsrRealtime => Ok(Provider::FunAsr),
            ServiceAdapter::OpenAiRealtime => Ok(Provider::OpenAi),
            ServiceAdapter::OpenAiRealtimeTranslate => Ok(Provider::OpenAiLiveTranslate),
            ServiceAdapter::GeminiTranscribe => Ok(Provider::Gemini),
            ServiceAdapter::GeminiLiveTranslate => Ok(Provider::GeminiLiveTranslate),
            _ => Err(
                concat3("Service ", service_id, " does not have a realtime recognition adapter"),
            ),
        }
    }

    /// The realtime adapter of the configured recognition service.
    pub fn from_config(config: &AsrConfig) -> (r: Result<Provider, String>)
        ensures
            match r {
                Ok(p) => provider_for(config.backend@) == Ok::<Provider, Seq<char>>(p),
                Err(e) => provider_for(config.backend@) == Err::<Provider, Seq<char>>(e@),
            },
    {
        Provider::from_service(config.backend.as_str())
    }

    /// How the adapter segments audio into utterances.
    pub fn segmentation_mode(self) -> (r: SegmentationMode)
        ensures
            r == segmentation_spec(self),
    {
        match self {
            Provider::Qwen | Provider::TokenPlan | Provider::OpenAi | Provider::Gemini => {
                SegmentationMode::LocalCommit
            },
            Provider::FunAsr => SegmentationMode::ServerVad,
            Provider::GeminiLiveTranslate | Provider::OpenAiLiveTranslate => {
                SegmentationMode::Continuous
            },
        }
    }

    /// Samples per audio packet sent to the service.
    pub fn audio_packet_samples(self) -> (r: usize)
        ensures
            r == (if self == Provider::OpenAiLiveTranslate {
                3200usize
            } else {
                1600usize
            }),
    {
        if self == Provider::OpenAiLiveTranslate {
            3200
        } else {
            1600
        }
    }
}

/// The profile a recognition session uses, by position, or why there is none:
/// the selected profile must exist and provide the configured service.
pub open spec fn active_profile_spec(config: AsrConfig) -> Result<int, Seq<char>> {
    match config.active_profile_id {
        None => Err("No API profile is selected for service "@ + config.backend@),
        Some(id) => match find_profile_index(config.api_profiles@, id@) {
            None => Err("The active API profile does not exist"@),
            Some(k) => match resolve_spec(&config.api_profiles@[k], config.backend@) {
                Err(e) => Err(e),
                Ok(_) => Ok(k),
            },
        },
    }
}

/// The position of the profile a recognition session uses.
pub fn active_profile(config: &AsrConfig) -> (r: Result<usize, String>)
    ensures
        match r {
            Ok(k) => active_profile_spec(*config) == Ok::<int, Seq<char>>(k as int) && k
                < config.api_profiles@.len(),
            Err(e) => active_profile_spec(*config) == Err::<int, Seq<char>>(e@),
        },
{
    let id = match &config.active_profile_id {
        None => {
            return Err(concat("No API profile is selected for service ", config.backend.as_str()));
        },
        Some(id) => id,
    };
    let k = match find_profile(&config.api_profiles, id.as_str()) {
        None => {
            return Err("The active API profile does not exist".to_owned());
        },
        Some(k) => k,
    };
    resolve_profile_service(&config.api_profiles[k], config.backend.as_str())?;
    Ok(k)
}

/// Whether `service` is a realtime service that `profile` provides and that
/// has a realtime adapter.
pub open spec fn realtime_on_profile(profile: &ApiProfile, service: Seq<char>) -> bool {
    &&& resolve_spec(profile, service) matches Ok(k)
    &&& service_transport(k) == RecognitionTransport::RealtimeStream
    &&& provider_for(service).is_ok()
}

/// The first service of `services` from position `i` that is realtime on `profile`.
pub open spec fn first_realtime(profile: &ApiProfile, services: Seq<ServiceKind>, i: int) -> Option<
    ServiceKind,
>
    decreases services.len() - i,
{
    if i < 0 || i >= services.len() {
        None
    } else if realtime_on_profile(profile, service_id(services[i])) {
        Some(services[i])
    } else {
        first_realtime(profile, services, i + 1)
    }
}

/// The service a connection test of `profile` uses: the requested one, else
/// the configured one, else the profile's first realtime service.
pub open spec fn test_service_spec(
    profile: &ApiProfile,
    configured: Seq<char>,
    requested: Option<Seq<char>>,
) -> Result<Seq<char>, Seq<char>> {
    match requested {
        Some(id) => match resolve_spec(profile, id) {
            Err(e) => Err(e),
            Ok(k) => if service_transport(k) != RecognitionTransport::RealtimeStream {
                Err("Service "@ + id + " is not a realtime cloud recognition service"@)
            } else {
                match provider_for(id) {
                    Err(e) => Err(e),
                    Ok(_) => Ok(id),
                }
            },
        },
        None => {
            if realtime_on_profile(profile, configured) {
                Ok(configured)
            } else {
                match provider_from(profile.provider@) {
                    None => Err("Unsupported API provider: "@ + profile.provider@),
                    Some(p) => {
                        match first_realtime(profile, provider_services(p), 0) {
                            Some(k) => Ok(service_id(k)),
                            None => Err(
                                "API profile "@ + profile.id@
                                    + " does not support realtime speech recognition"@,
                            ),
                        }
                    },
                }
            }
        },
    }
}

fn is_realtime_on_profile(profile: &ApiProfile, service: &str) -> (r: bool)
    ensures
        r == realtime_on_profile(profile, service@),
{
    match resolve_profile_service(profile, service) {
        Ok(k) => k.recognition_transport() == RecognitionTransport::RealtimeStream
            && Provider::from_service(service).is_ok(),
        Err(_) => false,
    }
}

/// The service a connection test of `profile` uses: the requested one, else
/// the configured one, else the profile's first realtime service.
pub fn resolve_test_service(
    profile: &ApiProfile,
    configured_service: &str,
    requested_service: Option<&str>,
) -> (r: Result<String, String>)
    ensures
        match r {
            Ok(s) => test_service_spec(
                profile,
                configured_service@,
                match requested_service {
                    Some(x) => Some(x@),
                    None => None,
                },
            ) == Ok::<Seq<char>, Seq<char>>(s@),
            Err(e) => test_service_spec(
                profile,
                configured_service@,
                match requested_service {
                    Some(x) => Some(x@),
                    None => None,
                },
            ) == Err::<Seq<char>, Seq<char>>(e@),
        },
{
    if let Some(id) = requested_service {
        let k = resolve_profile_service(profile, id)?;
        if k.recognition_transport() != RecognitionTransport::RealtimeStream {
            return Err(concat3("Service ", id, " is not a realtime cloud recognition service"));
        }
        Provider::from_service(id)?;
        return Ok(id.to_owned());
    }
    if is_realtime_on_profile(profile, configured_service) {
        return Ok(configured_service.to_owned());
    }
    let p = match parse_provider(profile.provider.as_str()) {
        None => {
            return Err(concat("Unsupported API provider: ", profile.provider.as_str()));
        },
        Some(p) => p,
    };
    let services = p.services();
    let mut i: usize = 0;
    while i < services.len()
        invariant
            i <= services@.len(),
            services@ == provider_services(p),
            requested_service.is_none(),
            !realtime_on_profile(profile, configured_service@),
            provider_from(profile.provider@) == Some(p),
            first_realtime(profile, services@, 0) == first_realtime(profile, services@, i as int),
        decreases services@.len() - i,
    {
        let id = services[i].id();
        if is_realtime_on_profile(profile, id) {
            return Ok(id.to_owned());
        }
        i = i + 1;
    }
    Err(concat3("API profile ", profile.id.as_str(), " does not support realtime speech recognition"))
}

/// The service to test a connection of the profile `profile_id` with.
pub open spec fn test_backend_spec(
    config: AsrConfig,
    profile_id: Seq<char>,
    requested: Option<Seq<char>>,
) -> Result<Seq<char>, Seq<char>> {
    match find_profile_index(config.api_profiles@, profile_id) {
        None => Err("API profile does not exist"@),
        Some(k) => test_service_spec(&config.api_profiles@[k], config.backend@, requested),
    }
}

/// The service to test a connection of the profile `profile_id` with.
pub fn streaming_test_backend(config: &AsrConfig, profile_id: &str, service_id: Option<&str>) -> (r:
    Result<String, String>)
    ensures
        match r {
            Ok(s) => test_backend_spec(
                *config,
                profile_id@,
                match service_id {
                    Some(x) => Some(x@),
                    None => None,
                },
            ) == Ok::<Seq<char>, Seq<char>>(s@),
            Err(e) => test_backend_spec(
                *config,
                profile_id@,
                match service_id {
                    Some(x) => Some(x@),
                    None => None,
                },
            ) == Err::<Seq<char>, Seq<char>>(e@),
        },
{
    let k = match find_profile(&config.api_profiles, profile_id) {
        None => {
            return Err("API profile does not exist".to_owned());
        },
        Some(k) => k,
    };
    resolve_test_service(&config.api_profiles[k], config.backend.as_str(), service_id)
}

/// Whether `http::HeaderValue::from_str` accepts a text: every byte is a
/// tab, or at least a space and not DEL. The bytes of a non-ASCII character
/// are all at least 0x80, so only the character itself need be looked at.
pub open spec fn header_value_text(s: Seq<char>) -> bool {
    forall|i: int| 0 <= i < s.len() ==> (#[trigger] s[i] == '\t' || (s[i] as u32 >= 32 && s[i] as u32 != 127))
}

/// Calls `reqwest::header::HeaderValue::from_str` (http's) and reports
/// whether it accepted the text. Its `try_from_generic` refuses a text with
/// any byte that `is_valid` refuses: below 32 but for a tab, or 127.
#[verifier::external_body]
fn header_value_ok(s: &str) -> (r: bool)
    ensures
        r == header_value_text(s@),
{
    reqwest::header::HeaderValue::from_str(s).is_ok()
}

/// The service whose settings a request reads: its model goes into the URL.
pub open spec fn request_settings_service(p: Provider) -> Option<Seq<char>> {
    match p {
        Provider::Qwen => Some(SERVICE_QWEN_REALTIME@),
        Provider::TokenPlan => Some(SERVICE_TOKEN_PLAN_REALTIME@),
        Provider::OpenAiLiveTranslate => Some(SERVICE_OPENAI_REALTIME_TRANSLATE@),
        _ => None,
    }
}

/// Whether a request goes to the profile's workspace endpoint.
pub open spec fn uses_workspace(p: Provider) -> bool {
    p == Provider::Qwen || p == Provider::FunAsr
}

/// Whether the key goes into an `Authorization: Bearer` header; Gemini puts
/// it in the URL's query, where it is percent-encoded.
pub open spec fn bearer_key(p: Provider) -> bool {
    p != Provider::Gemini && p != Provider::GeminiLiveTranslate
}

/// Why the connection request of adapter `p` cannot be built for `profile`
/// with `key`: the settings its URL names are missing, the workspace its
/// endpoint lives under is not configured, or the key cannot stand in a
/// header.
pub open spec fn request_err(config: AsrConfig, p: Provider, profile: ApiProfile, key: Seq<char>) -> Option<
    Seq<char>,
> {
    if request_settings_service(p) is Some && !has_key(
        config.service_settings@,
        request_settings_service(p)->0,
    ) {
        Some("Recognition settings are missing for service "@ + request_settings_service(p)->0)
    } else if uses_workspace(p) && match profile.workspace_id {
        Some(w) => w@.len() == 0,
        None => true,
    } {
        Some("Alibaba Cloud Workspace ID is not configured"@)
    } else if bearer_key(p) && !header_value_text("Bearer "@ + key) {
        Some("API key contains invalid characters"@)
    } else {
        None
    }
}

/// Checks that the connection request of adapter `provider` can be built:
/// the part of building it that can fail. No connection is opened.
pub fn check_request(config: &AsrConfig, provider: Provider, profile: &ApiProfile, key: &str) -> (r: Result<
    (),
    String,
>)
    ensures
        crate::rules::err_of(r) == request_err(*config, provider, *profile, key@),
{
    let service = match provider {
        Provider::Qwen => Some(SERVICE_QWEN_REALTIME),
        Provider::TokenPlan => Some(SERVICE_TOKEN_PLAN_REALTIME),
        Provider::OpenAiLiveTranslate => Some(SERVICE_OPENAI_REALTIME_TRANSLATE),
        _ => None,
    };
    if let Some(id) = service {
        if !config.service_settings.contains_key(id) {
            return Err(concat("Recognition settings are missing for service ", id));
        }
    }
    if provider == Provider::Qwen || provider == Provider::FunAsr {
        let missing = match &profile.workspace_id {
            Some(w) => w.as_str().unicode_len() == 0,
            None => true,
        };
        if missing {
            return Err("Alibaba Cloud Workspace ID is not configured".to_owned());
        }
    }
    if provider != Provider::Gemini && provider != Provider::GeminiLiveTranslate {
        let header = concat("Bearer ", key);
        if !header_value_ok(header.as_str()) {
            return Err("API key contains invalid characters".to_owned());
        }
    }
    Ok(())
}

/// Why a cloud recognition session cannot be opened with `key`, the API key
/// read for the active profile (`None` when none is configured).
pub open spec fn cloud_connection_spec(config: AsrConfig, key: Option<Seq<char>>) -> Option<
    Seq<char>,
> {
    match provider_for(config.backend@) {
        Err(e) => Some(e),
        Ok(p) => match active_profile_spec(config) {
            Err(e) => Some(e),
            Ok(k) => match key {
                None => Some("API key is not configured for "@ + config.api_profiles@[k].name@),
                Some(x) => request_err(config, p, config.api_profiles@[k], x),
            },
        },
    }
}

/// Checks that a cloud recognition session can be opened: the service has a
/// realtime adapter, the active profile provides it, an API key is set, and
/// the connection request builds with it.
pub fn validate_cloud_connection(config: &AsrConfig, key: &Option<String>) -> (r: Result<(), String>)
    ensures
        crate::rules::err_of(r) == cloud_connection_spec(
            *config,
            match key {
                Some(x) => Some(x@),
                None => None,
            },
        ),
{
    let provider = Provider::from_config(config)?;
    let k = active_profile(config)?;
    match key {
        None => Err(concat("API key is not configured for ", config.api_profiles[k].name.as_str())),
        Some(x) => check_request(config, provider, &config.api_profiles[k], x.as_str()),
    }
}

/// First pause before reconnecting, in milliseconds.
pub const INITIAL_BACKOFF_MS: u64 = 500;

/// Longest pause before reconnecting, in milliseconds.
pub const MAX_BACKOFF_MS: u64 = 8000;

/// A failure that resets the session.
pub open spec fn session_failure(e: CloudEvent, code: Seq<char>, detail: Seq<char>) -> bool {
    e matches CloudEvent::Failed { utterance_id, reset_session, code: c, detail: d } && utterance_id is None
        && reset_session && c@ == code && d@ == detail
}

/// What follows the end of a session: the failure to report, if any, and
/// whether to connect again. While stopping, only a failed drain is
/// reported; otherwise the disconnect is reported, and the session
/// reconnects when the failure policy is `reconnect`.
pub fn session_ended(outcome: Result<(), String>, stopping: bool, policy: &str) -> (r: (Option<CloudEvent>, bool))
    ensures
        stopping ==> !r.1 && match outcome {
            Ok(()) => r.0 is None,
            Err(detail) => r.0 matches Some(e) && session_failure(e, "asr.cloud_drain_failed"@, detail@),
        },
        !stopping ==> r.1 == (policy@ == "reconnect"@),
        !stopping ==> (r.0 matches Some(e) && session_failure(
            e,
            "asr.cloud_disconnected"@,
            match outcome {
                Ok(()) => "Cloud recognition connection was closed"@,
                Err(detail) => detail@,
            },
        )),
{
    if stopping {
        let failure = match outcome {
            Ok(()) => None,
            Err(detail) => Some(
                CloudEvent::Failed {
                    utterance_id: None,
                    reset_session: true,
                    code: crate::text::owned("asr.cloud_drain_failed"),
                    detail,
                },
            ),
        };
        return (failure, false);
    }
    let detail = match outcome {
        Ok(()) => crate::text::owned("Cloud recognition connection was closed"),
        Err(error) => error,
    };
    let failure = CloudEvent::Failed {
        utterance_id: None,
        reset_session: true,
        code: crate::text::owned("asr.cloud_disconnected"),
        detail,
    };
    (Some(failure), crate::text::str_eq(policy, "reconnect"))
}

/// What follows a reconnect attempt: on success no report and the pause
/// starts over; on failure the failure is reported and the pause doubles,
/// up to `MAX_BACKOFF_MS`.
pub fn reconnect_attempted(result: Result<(), String>, backoff_ms: u64) -> (r: (Option<CloudEvent>, u64))
    ensures
        match result {
            Ok(()) => r.0 is None,
            Err(detail) => r.0 matches Some(e) && session_failure(e, "asr.cloud_reconnect_failed"@, detail@),
        },
        r.1 == next_backoff(backoff_ms as int, result is Ok),
{
    match result {
        Ok(()) => (None, INITIAL_BACKOFF_MS),
        Err(detail) => {
            let next = if backoff_ms < MAX_BACKOFF_MS / 2 {
                backoff_ms * 2
            } else {
                MAX_BACKOFF_MS
            };
            (
                Some(
                    CloudEvent::Failed {
                        utterance_id: None,
                        reset_session: true,
                        code: crate::text::owned("asr.cloud_reconnect_failed"),
                        detail,
                    },
                ),
                next,
            )
        },
    }
}

/// The pause before the next reconnect attempt, after an attempt with the
/// given outcome that followed a pause of `backoff_ms`.
pub open spec fn next_backoff(backoff_ms: int, succeeded: bool) -> int {
    if succeeded {
        INITIAL_BACKOFF_MS as int
    } else if 2 * backoff_ms < MAX_BACKOFF_MS {
        2 * backoff_ms
    } else {
        MAX_BACKOFF_MS as int
    }
}

/// The pause after a run of reconnect attempts with these outcomes, oldest
/// first, starting from the first pause.
pub open spec fn backoff_run(outcomes: Seq<bool>) -> int
    decreases outcomes.len(),
{
    if outcomes.len() == 0 {
        INITIAL_BACKOFF_MS as int
    } else {
        next_backoff(backoff_run(outcomes.drop_last()), outcomes.last())
    }
}

/// How many attempts at the end of a run failed, since the last success.
pub open spec fn failures_since_success(outcomes: Seq<bool>) -> nat
    decreases outcomes.len(),
{
    if outcomes.len() == 0 || outcomes.last() {
        0
    } else {
        1 + failures_since_success(outcomes.drop_last())
    }
}

/// Over any run of reconnect attempts, the pause is 500 ms doubled once per
/// attempt failed since the last success, capped at 8 s: a success resets
/// it, and it never leaves 500 ms to 8 s.
pub proof fn lemma_backoff_over_a_run(outcomes: Seq<bool>)
    ensures
        backoff_run(outcomes) == (if INITIAL_BACKOFF_MS * pow2(failures_since_success(outcomes))
            < MAX_BACKOFF_MS {
            INITIAL_BACKOFF_MS * pow2(failures_since_success(outcomes))
        } else {
            MAX_BACKOFF_MS as int
        }),
        INITIAL_BACKOFF_MS <= backoff_run(outcomes) <= MAX_BACKOFF_MS,
    decreases outcomes.len(),
{
    let n = failures_since_success(outcomes);
    if outcomes.len() == 0 || outcomes.last() {
        assert(pow2(0) == 1) by {
            lemma_pow2(0);
            reveal(pow);
        }
    } else {
        let prev = outcomes.drop_last();
        lemma_backoff_over_a_run(prev);
        let m = failures_since_success(prev);
        assert(n == m + 1);
        lemma_pow2_unfold(n);
        lemma_pow2_pos(m);
    }
}

/// Takes one packet of `packet_samples` samples off the front of the
/// buffer, once the buffer holds that many.
pub fn take_audio_packet<T>(buffer: &mut Vec<T>, packet_samples: usize) -> (r: Option<Vec<T>>)
    ensures
        old(buffer)@.len() >= packet_samples ==> (r matches Some(p) && p@ == old(buffer)@.take(
            packet_samples as int,
        )),
        old(buffer)@.len() >= packet_samples ==> final(buffer)@ == old(buffer)@.skip(packet_samples as int),
        old(buffer)@.len() < packet_samples ==> r is None && final(buffer)@ == old(buffer)@,
{
    if buffer.len() < packet_samples {
        return None;
    }
    let mut rest = buffer.split_off(packet_samples);
    std::mem::swap(buffer, &mut rest);
    Some(rest)
}

/// The packets of `n` samples that `all` is cut into, front first.
pub open spec fn packets<T>(all: Seq<T>, n: nat) -> Seq<Seq<T>>
    decreases all.len(),
{
    if n == 0 || all.len() < n {
        Seq::empty()
    } else {
        seq![all.take(n as int)] + packets(all.skip(n as int), n)
    }
}

/// What is left of `all` after its packets of `n` samples.
pub open spec fn packet_rest<T>(all: Seq<T>, n: nat) -> Seq<T>
    decreases all.len(),
{
    if n == 0 || all.len() < n {
        all
    } else {
        packet_rest(all.skip(n as int), n)
    }
}

pub open spec fn sample_views<T>(v: Seq<Vec<T>>) -> Seq<Seq<T>> {
    v.map_values(|p: Vec<T>| p@)
}

/// Adds captured samples to the buffer and takes off every whole packet of
/// `packet_samples` samples, in order; the rest stays for later.
pub fn audio_packets<T>(buffer: &mut Vec<T>, samples: Vec<T>, packet_samples: usize) -> (r: Vec<Vec<T>>)
    requires
        packet_samples > 0,
    ensures
        sample_views(r@) == packets(old(buffer)@ + samples@, packet_samples as nat),
        final(buffer)@ == packet_rest(old(buffer)@ + samples@, packet_samples as nat),
{
    let ghost all = old(buffer)@ + samples@;
    let mut incoming = samples;
    buffer.append(&mut incoming);
    assert(buffer@ == all);
    let mut out: Vec<Vec<T>> = Vec::new();
    loop
        invariant
            packet_samples > 0,
            all == old(buffer)@ + samples@,
            sample_views(out@) + packets(buffer@, packet_samples as nat) == packets(all, packet_samples as nat),
            packet_rest(buffer@, packet_samples as nat) == packet_rest(all, packet_samples as nat),
        decreases buffer@.len(),
    {
        let ghost before = buffer@;
        match take_audio_packet(buffer, packet_samples) {
            Some(p) => {
                proof {
                    assert(packets(before, packet_samples as nat) == seq![p@] + packets(buffer@, packet_samples as nat));
                }
                let ghost prev = sample_views(out@);
                out.push(p);
                proof {
                    assert(sample_views(out@) =~= prev.push(p@));
                    assert(prev.push(p@) + packets(buffer@, packet_samples as nat) =~= prev + (seq![p@] + packets(
                        buffer@,
                        packet_samples as nat,
                    )));
                }
            },
            None => {
                proof {
                    assert(packets(buffer@, packet_samples as nat) =~= Seq::<Seq<T>>::empty());
                    assert(sample_views(out@) + Seq::<Seq<T>>::empty() =~= sample_views(out@));
                }
                return out;
            },
        }
    }
}

/// Takes everything the buffer holds, unless it is empty.
pub fn take_buffered_audio<T>(buffer: &mut Vec<T>) -> (r: Option<Vec<T>>)
    ensures
        old(buffer)@.len() > 0 ==> (r matches Some(p) && p@ == old(buffer)@),
        old(buffer)@.len() > 0 ==> final(buffer)@.len() == 0,
        old(buffer)@.len() == 0 ==> r is None && final(buffer)@ == old(buffer)@,
{
    if buffer.len() == 0 {
        return None;
    }
    let mut out: Vec<T> = Vec::new();
    std::mem::swap(buffer, &mut out);
    Some(out)
}

/// Cutting audio into packets loses and repeats nothing: the packets, in
/// order, followed by what stays buffered, are exactly the samples; every
/// packet holds `n` samples, and fewer than `n` stay.
pub proof fn lemma_packets_conserve_audio<T>(all: Seq<T>, n: nat)
    requires
        n > 0,
    ensures
        packets(all, n).flatten() + packet_rest(all, n) == all,
        forall|i: int| 0 <= i < packets(all, n).len() ==> (#[trigger] packets(all, n)[i]).len() == n,
        packet_rest(all, n).len() < n,
    decreases all.len(),
{
    if all.len() >= n {
        let rest = all.skip(n as int);
        lemma_packets_conserve_audio(rest, n);
        let ps = packets(all, n);
        assert(ps.first() == all.take(n as int));
        assert(ps.drop_first() =~= packets(rest, n));
        assert(ps.flatten() == all.take(n as int) + packets(rest, n).flatten());
        assert(all.take(n as int) + packets(rest, n).flatten() + packet_rest(rest, n) =~= all.take(n as int) + (
        packets(rest, n).flatten() + packet_rest(rest, n)));
        assert(all.take(n as int) + rest =~= all);
        assert forall|i: int| 0 <= i < ps.len() implies (#[trigger] ps[i]).len() == n by {
            if i > 0 {
                assert(ps[i] == packets(rest, n)[i - 1]);
            }
        }
    } else {
        assert(packets(all, n).flatten() =~= Seq::<T>::empty());
        assert(Seq::<T>::empty() + all =~= all);
    }
}

/// A cloud connection is checked in order: a service without a realtime
/// adapter is refused whatever the profile and key; then a profile that is
/// missing or does not provide the service, whatever the key; a missing key
/// is reported only when both are in order; and with all three in order the
/// connection is accepted exactly when its request builds with the key.
pub proof fn lemma_cloud_connection_order(config: AsrConfig, key: Option<Seq<char>>, other_key: Option<Seq<char>>)
    ensures
        provider_for(config.backend@) is Err ==> cloud_connection_spec(config, key) == cloud_connection_spec(
            config,
            other_key,
        ) && cloud_connection_spec(config, key) is Some,
        provider_for(config.backend@) is Ok && active_profile_spec(config) is Err ==> cloud_connection_spec(
            config,
            key,
        ) == cloud_connection_spec(config, other_key) && cloud_connection_spec(config, key) is Some,
        provider_for(config.backend@) is Ok && active_profile_spec(config) is Ok && key is None
            ==> cloud_connection_spec(config, key) == Some(
            "API key is not configured for "@ + config.api_profiles@[active_profile_spec(config)->Ok_0].name@,
        ),
        (cloud_connection_spec(config, key) is None) <==> (provider_for(config.backend@) is Ok
            && active_profile_spec(config) is Ok && key is Some && request_err(
            config,
            provider_for(config.backend@)->Ok_0,
            config.api_profiles@[active_profile_spec(config)->Ok_0],
            key->0,
        ) is None),
{
}

} // verus!
