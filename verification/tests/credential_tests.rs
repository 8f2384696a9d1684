use vrcs_core::credentials::{
    credential_status, data_home_from, delete_credential, delete_external_api_token,
    environment_variables, legacy_target, read_credential, read_stored_credential, read_token,
    store_path_in, target, write_credential, write_external_api_token, write_vrcx_token,
    CredentialStore, EXTERNAL_API_TARGET, VRCX_TARGET,
};
use vrcs_core::providers::{
    ALIBABA_PROVIDER, ALIBABA_TOKEN_PLAN_PROVIDER, DEEPL_PROVIDER, GEMINI_PROVIDER, GROQ_PROVIDER,
    OLLAMA_PROVIDER, OPENAI_COMPATIBLE_PROVIDER, OPENAI_PROVIDER,
};

#[test]
fn brand_environment_variables_keep_the_compatible_fallback() {
    let (primary, legacy) = environment_variables(GROQ_PROVIDER).unwrap();
    assert_eq!(primary, ["VRCS_GROQ_API_KEY", "GROQ_API_KEY"]);
    assert_eq!(legacy, ["VRCS_OPENAI_COMPATIBLE_API_KEY"]);
}

#[test]
fn legacy_profiles_keep_the_previous_targets() {
    assert_eq!(
        legacy_target("legacy-alibaba-cloud", ALIBABA_PROVIDER).as_deref(),
        Some("VRCS/ASR/qwen")
    );
    assert!(legacy_target("new-profile", ALIBABA_PROVIDER).is_none());
}

#[test]
fn integration_tokens_use_independent_credential_targets() {
    assert_eq!(EXTERNAL_API_TARGET, "VRCS/ExternalAPI/token");
    assert_eq!(VRCX_TARGET, "VRCS/VRCXIntegration/token");
    assert_ne!(EXTERNAL_API_TARGET, VRCX_TARGET);
    assert_ne!(VRCX_TARGET, target("profile"));
    let mut store = CredentialStore::new();
    assert!(write_external_api_token(&mut store, " ").is_err());
    assert!(write_vrcx_token(&mut store, " ").is_err());
}

#[test]
fn credential_store_path_follows_the_xdg_layout() {
    assert_eq!(
        store_path_in("/home/dev/.local/share"),
        "/home/dev/.local/share/vrcs/credentials.json"
    );
    assert_eq!(store_path_in("/data"), "/data/vrcs/credentials.json");
}

#[test]
fn data_home_prefers_xdg_and_falls_back_to_the_home_directory() {
    let home = String::from("/home/dev");
    assert_eq!(
        data_home_from(Some("/data".into()), Some(home.clone())).unwrap(),
        "/data"
    );
    assert_eq!(
        data_home_from(None, Some(home.clone())).unwrap(),
        "/home/dev/.local/share"
    );
    assert_eq!(
        data_home_from(Some("relative".into()), Some(home)).unwrap(),
        "/home/dev/.local/share"
    );
    assert!(data_home_from(None, None).is_err());
}

#[test]
fn stored_credentials_are_independent_per_target() {
    let mut store = CredentialStore::new();
    write_external_api_token(&mut store, "first").unwrap();
    write_vrcx_token(&mut store, " second ").unwrap();
    write_external_api_token(&mut store, "updated").unwrap();
    assert_eq!(store.read(EXTERNAL_API_TARGET).as_deref(), Some("updated"));
    assert_eq!(store.read(VRCX_TARGET).as_deref(), Some("second"));
    assert_eq!(store.entries().len(), 2);
}

#[test]
fn deleting_stored_credentials_is_idempotent() {
    let mut store = CredentialStore::new();
    assert!(delete_external_api_token(&mut store).is_ok());
    write_external_api_token(&mut store, "secret").unwrap();
    assert!(delete_external_api_token(&mut store).is_ok());
    assert_eq!(store.read(EXTERNAL_API_TARGET), None);
    assert!(delete_external_api_token(&mut store).is_ok());
}

#[test]
fn profile_keys_round_trip_and_fall_back_to_older_targets() {
    let mut store = CredentialStore::new();
    assert!(write_credential(&mut store, "profile", "unknown", "key").is_err());
    assert_eq!(
        write_credential(&mut store, "profile", OPENAI_PROVIDER, &"k".repeat(4097)).unwrap_err(),
        "API key length is invalid"
    );
    write_credential(&mut store, "profile", OPENAI_PROVIDER, "  key  ").unwrap();
    assert_eq!(
        read_stored_credential(&store, "profile", OPENAI_PROVIDER).unwrap().as_deref(),
        Some("key")
    );
    store.write("VRCS/ASR/openai", "legacy");
    assert_eq!(
        read_stored_credential(&store, "legacy-openai", OPENAI_PROVIDER).unwrap().as_deref(),
        Some("legacy")
    );
    delete_credential(&mut store, "legacy-openai", OPENAI_PROVIDER).unwrap();
    assert_eq!(read_stored_credential(&store, "legacy-openai", OPENAI_PROVIDER).unwrap(), None);
    let status = credential_status(&store, "profile", OPENAI_PROVIDER, &vec![None, None]).unwrap();
    assert!(status.configured && status.stored_configured && !status.environment_override);
    assert_eq!(status.source, Some("credential_manager"));
    let environment = vec![Some("  ".to_string()), Some("env-key".to_string())];
    assert_eq!(
        read_credential(&store, "profile", OPENAI_PROVIDER, &environment).unwrap().as_deref(),
        Some("env-key")
    );
    let status = credential_status(&store, "other", OPENAI_PROVIDER, &environment).unwrap();
    assert_eq!(status.source, Some("environment"));
    assert_eq!(read_token(&store, VRCX_TARGET, &None), None);
}

#[test]
fn accepts_all_supported_providers() {
    let mut store = CredentialStore::new();
    for provider in [
        ALIBABA_PROVIDER,
        ALIBABA_TOKEN_PLAN_PROVIDER,
        OPENAI_PROVIDER,
        GEMINI_PROVIDER,
        GROQ_PROVIDER,
        DEEPL_PROVIDER,
        OLLAMA_PROVIDER,
        OPENAI_COMPATIBLE_PROVIDER,
    ] {
        assert!(credential_status(&store, "profile", provider, &vec![]).is_ok());
    }
    assert!(credential_status(&store, "profile", "unknown", &vec![]).is_err());
    assert!(write_credential(&mut store, "profile", ALIBABA_PROVIDER, " ").is_err());
}

#[test]
fn a_store_rebuilt_from_its_entries_holds_the_same_secrets() {
    let mut store = CredentialStore::new();
    store.write("b", "2");
    store.write("a", "1");
    store.write("b", "3");
    let entries = store.entries();
    assert_eq!(entries.len(), 2);
    let rebuilt = CredentialStore::from_entries(&entries);
    assert_eq!(rebuilt.read("a").as_deref(), Some("1"));
    assert_eq!(rebuilt.read("b").as_deref(), Some("3"));
    let later_wins = CredentialStore::from_entries(&vec![
        ("k".to_string(), "old".to_string()),
        ("k".to_string(), "new".to_string()),
    ]);
    assert_eq!(later_wins.read("k").as_deref(), Some("new"));
}
