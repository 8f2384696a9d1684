//! Verified core logic of VRCS: configuration rules, provider catalog,
//! credential targets, live-translation text handling and overlay presentation.
use vstd::prelude::*;

pub mod audio_devices;
pub mod audio_graph;
pub mod cloud_events;
pub mod config;
pub mod core_options;
pub mod credentials;
pub mod desktop;
pub mod diagnostics;
pub mod domain_events;
pub mod float_bits;
pub mod glossary_rules;
pub mod ids;
pub mod ip;
pub mod json;
pub mod live_text;
pub mod live_translation;
pub mod llm_gemini;
pub mod models;
pub mod normalization;
pub mod overlay_host;
pub mod overlay_rules;
pub mod presentation;
pub mod profile_rules;
pub mod providers;
pub mod rules;
pub mod service_settings;
pub mod session;
pub mod session_replies;
pub mod streaming;
pub mod subtitle_store;
pub mod validation;
pub mod text;
pub mod translation_rules;
pub mod web_url;

verus! {
} // verus!
