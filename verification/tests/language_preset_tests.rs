use vrcs_core::config::{LanguagePreset, TranslationTargetConfig};
use vrcs_core::translation_rules::validate_language_presets;

fn preset(id: &str, name: &str) -> LanguagePreset {
    LanguagePreset {
        id: id.into(),
        name: name.into(),
        recognition_language: "auto".into(),
        translation_mode: "disabled".into(),
        speaker_targets: vec![TranslationTargetConfig::new("ja")],
        microphone_targets: vec![TranslationTargetConfig::new("en")],
        osc_translation_strategy: "preferred_only".into(),
    }
}

const ID_ERROR: &str = "Language preset IDs must be unique UUIDs";

#[test]
fn preset_ids_accept_every_uuid_form() {
    let presets = vec![
        preset("550e8400-e29b-41d4-a716-446655440000", "one"),
        preset("550E8400E29B41D4A716446655440001", "two"),
        preset("{550e8400-e29b-41d4-a716-446655440002}", "three"),
        preset("URN:uuid:550e8400-e29b-41d4-a716-446655440003", "four"),
    ];
    assert_eq!(validate_language_presets(&presets, &Vec::new(), ""), Ok(()));
}

#[test]
fn preset_ids_that_are_not_uuids_are_refused() {
    for id in [
        "550e8400-e29b-41d4-a716-44665544000g",
        "550e8400e29b-41d4-a716-4466554400000",
        "urn:uid:550e8400-e29b-41d4-a716-446655440000",
        "(550e8400-e29b-41d4-a716-446655440000)",
        "",
    ] {
        let presets = vec![preset(id, "one")];
        assert_eq!(
            validate_language_presets(&presets, &Vec::new(), ""),
            Err(ID_ERROR.to_string()),
            "{id}"
        );
    }
}

#[test]
fn repeated_preset_ids_and_names_are_refused() {
    let id = "550e8400-e29b-41d4-a716-446655440000";
    let presets = vec![preset(id, "one"), preset(id, "two")];
    assert_eq!(validate_language_presets(&presets, &Vec::new(), ""), Err(ID_ERROR.to_string()));
    let presets = vec![
        preset(id, "Travel"),
        preset("550e8400-e29b-41d4-a716-446655440001", " travel "),
    ];
    assert_eq!(
        validate_language_presets(&presets, &Vec::new(), ""),
        Err("Language preset names must be unique and contain 1 to 40 characters".to_string())
    );
}
