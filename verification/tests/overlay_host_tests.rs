use vrcs_core::core_options::{parse_port, CoreOptions};
use vrcs_core::float_bits::F32;
use vrcs_core::overlay_host::{
    dimensions, is_steamvr_server, render, steamvr_among, steamvr_running, Layout,
};
use vrcs_core::presentation::PresentationContent;

#[test]
fn layouts_have_fixed_texture_sizes() {
    assert_eq!(dimensions(Layout::Headset), (1024, 192));
    assert_eq!(dimensions(Layout::Wrist), (768, 768));
}

#[test]
fn rendering_is_refused_off_windows() {
    let result = render(
        Layout::Headset,
        &PresentationContent::Headset("hello".into()),
        32,
        F32 { bits: 0.5f32.to_bits() },
    );
    assert_eq!(result.unwrap_err(), "VR Overlay rendering is only supported on Windows");
}

#[test]
fn steamvr_is_found_by_its_server_process_in_any_case() {
    assert!(is_steamvr_server("vrserver.exe"));
    assert!(is_steamvr_server("VRServer.EXE"));
    assert!(!is_steamvr_server("vrserver"));
    assert!(steamvr_among(&vec!["explorer.exe".into(), "VRSERVER.exe".into()]));
    assert!(!steamvr_among(&vec!["explorer.exe".into()]));
    assert!(!steamvr_running());
}

#[test]
fn ports_read_as_u16_from_str_reads_them() {
    assert_eq!(parse_port("8766"), Some(8766));
    assert_eq!(parse_port("+80"), Some(80));
    assert_eq!(parse_port("65535"), Some(65535));
    assert_eq!(parse_port("65536"), None);
    assert_eq!(parse_port("0065535"), Some(65535));
    assert_eq!(parse_port(""), None);
    assert_eq!(parse_port("+"), None);
    assert_eq!(parse_port("-1"), None);
    assert_eq!(parse_port("80a"), None);
    assert_eq!(parse_port(" 80"), None);
    for value in ["0", "1", "443", "99999", "+0", "++1", "70000"] {
        assert_eq!(parse_port(value), value.parse::<u16>().ok(), "{value}");
    }
}

#[test]
fn core_options_default_the_configuration_file() {
    let options = CoreOptions::from_values(None, None, Some("nope".into()), None, None, None);
    assert_eq!(options.config_path, "config.json");
    assert_eq!(options.port, None);
    let options = CoreOptions::from_values(
        Some("/etc/vrcs.json".into()),
        Some("127.0.0.1".into()),
        Some("9000".into()),
        Some("token".into()),
        None,
        Some("/models".into()),
    );
    assert_eq!(options.config_path, "/etc/vrcs.json");
    assert_eq!(options.host.as_deref(), Some("127.0.0.1"));
    assert_eq!(options.port, Some(9000));
    assert_eq!(options.session_token.as_deref(), Some("token"));
    assert_eq!(options.asr_model_dir.as_deref(), Some("/models"));
}
