use vrcs_core::desktop::{
    core_connection_config, should_hide_on_close, should_migrate_data_dir, target,
    updater_available, variant, UpdateError, DEFAULT_CORE_PORT,
};

#[test]
fn closing_only_hides_the_window_with_a_tray_and_the_preference() {
    assert!(should_hide_on_close(true, true));
    assert!(!should_hide_on_close(true, false));
    assert!(!should_hide_on_close(false, true));
    assert!(!should_hide_on_close(false, false));
}

#[test]
fn updater_target_matches_build_variant() {
    for (cuda, expected_variant) in [(true, "cuda"), (false, "standard")] {
        assert_eq!(variant(cuda), expected_variant);
        assert_eq!(target(variant(cuda)), format!("windows-x86_64-{expected_variant}"));
    }
}

#[test]
fn updater_needs_a_signing_key_and_errors_have_codes() {
    assert!(!updater_available(None));
    assert!(!updater_available(Some("  ")));
    assert!(updater_available(Some("key")));
    assert_eq!(UpdateError::Busy.code(), "update.busy");
    assert_eq!(UpdateError::NoPendingUpdate.code(), "update.no_pending");
}

#[test]
fn development_core_port_avoids_anki_and_vrchat_osc_defaults() {
    assert_eq!(DEFAULT_CORE_PORT, 8766);
    assert!(![8765, 9000, 9001].contains(&DEFAULT_CORE_PORT));
    assert!(!core_connection_config(None).token.is_empty());
}

#[test]
fn core_urls_follow_the_port() {
    let development = core_connection_config(None);
    assert_eq!(development.http_url, "http://127.0.0.1:8766");
    assert_eq!(development.ws_url, "ws://127.0.0.1:8766/ws");
    let release = core_connection_config(Some(40123));
    assert_eq!(release.http_url, "http://127.0.0.1:40123");
    assert_eq!(release.ws_url, "ws://127.0.0.1:40123/ws");
    assert_eq!(release.token.len(), 32);
    assert!(release.token.chars().all(|c| c.is_ascii_hexdigit()));
    assert_ne!(release.token, development.token);
}

#[test]
fn only_a_surviving_legacy_directory_is_migrated() {
    assert!(should_migrate_data_dir(false, true));
    assert!(!should_migrate_data_dir(true, true));
    assert!(!should_migrate_data_dir(false, false));
    assert!(!should_migrate_data_dir(true, false));
}
