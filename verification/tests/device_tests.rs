use vrcs_core::audio_devices::{
    find_process_among, process_needle, device_id, parse_u32, process_rank, NodeEntry, Snapshot, DEFAULT_DEVICE_ID,
    FALLBACK_CHANNELS, FALLBACK_SAMPLE_RATE,
};

#[test]
fn settings_metadata_maps_the_clock_rate_key() {
    let mut snapshot = Snapshot::new();
    snapshot.apply_metadata(false, "default.clock.channels", "2");
    snapshot.apply_metadata(false, "log.level", "2");
    snapshot.apply_metadata(true, "default.audio.sink", r#"{"name":"hdmi-stereo"}"#);
    assert_eq!(snapshot.sample_rate(), FALLBACK_SAMPLE_RATE);

    snapshot.apply_metadata(false, "clock.rate", "44100");
    assert_eq!(snapshot.sample_rate(), 44_100);

    let mut legacy = Snapshot::new();
    legacy.apply_metadata(false, "default.clock.rate", "32000");
    assert_eq!(legacy.sample_rate(), 32_000);

    let mut legacy_first = Snapshot::new();
    legacy_first.apply_metadata(false, "default.clock.rate", "32000");
    legacy_first.apply_metadata(false, "clock.rate", "44100");
    assert_eq!(legacy_first.sample_rate(), 44_100);
    let mut primary_first = Snapshot::new();
    primary_first.apply_metadata(false, "clock.rate", "44100");
    primary_first.apply_metadata(false, "default.clock.rate", "32000");
    assert_eq!(primary_first.sample_rate(), 44_100);
}

#[test]
fn fallback_device_channels_come_from_the_default_node() {
    let mut snapshot = Snapshot::new();
    snapshot.apply_metadata(true, "default.audio.sink", r#"{"name":"hdmi-stereo"}"#);
    snapshot.nodes.push(NodeEntry {
        node_name: "hdmi-stereo".to_string(),
        label: "HDMI".to_string(),
        is_sink: true,
        channels: 6,
    });
    assert_eq!(snapshot.default_channels(true), 6);
    assert_eq!(snapshot.default_channels(false), FALLBACK_CHANNELS);
}

#[test]
fn unsigned_parsing_follows_the_standard_library() {
    assert_eq!(parse_u32("44100"), Some(44_100));
    assert_eq!(parse_u32("+7"), Some(7));
    assert_eq!(parse_u32("4294967295"), Some(u32::MAX));
    assert_eq!(parse_u32("4294967296"), None);
    assert_eq!(parse_u32(""), None);
    assert_eq!(parse_u32("+"), None);
    assert_eq!(parse_u32("-1"), None);
    assert_eq!(parse_u32("1 2"), None);
}

#[test]
fn device_ids_are_stable_fnv_hashes() {
    fn reference(name: &str) -> i64 {
        let mut hash: u64 = 0xcbf2_9ce4_8422_2325;
        for byte in name.as_bytes() {
            hash ^= u64::from(*byte);
            hash = hash.wrapping_mul(0x0000_0100_0000_01b3);
        }
        let id = (hash & 0x7fff_ffff_ffff_ffff) as i64;
        if id == 0 {
            1
        } else {
            id
        }
    }
    for name in ["", "hdmi-stereo", "alsa_output.pci-0000_01_00.1.hdmi-stereo", "麦克风"] {
        assert_eq!(device_id(name), reference(name));
        assert_ne!(device_id(name), DEFAULT_DEVICE_ID);
    }
    assert_eq!(device_id(""), 0x4bf2_9ce4_8422_2325);
}

#[test]
fn process_ranks_prefer_exact_names() {
    assert_eq!(process_rank("VRChat.exe\n", "", "vrchat"), Some(1));
    assert_eq!(process_rank("other", "/games/VRChat.exe", "vrchat"), Some(2));
    assert_eq!(process_rank("vrchat-helper", "", "vrchat"), Some(3));
    assert_eq!(process_rank("x", "/opt/vrchat-helper", "vrchat"), Some(4));
    assert_eq!(process_rank("x", "/opt/y", "vrchat"), None);
}

#[test]
fn missing_selected_devices_are_reported_and_defaults_fall_back() {
    let mut snapshot = Snapshot::new();
    snapshot.nodes.push(NodeEntry {
        node_name: "mic".to_string(),
        label: "Mic".to_string(),
        is_sink: false,
        channels: 0,
    });
    let resolved = snapshot.resolve_target(Some("mic"), false).ok().unwrap();
    assert_eq!(resolved.node_name.as_deref(), Some("mic"));
    assert_eq!(resolved.device.channels, 1);
    assert_eq!(resolved.device.id, device_id("mic"));
    let error = snapshot.resolve_target(Some("gone"), false).err().unwrap();
    assert_eq!(error.message, "The selected microphone device is no longer available");
    assert!(error.retryable);
    let fallback = snapshot.resolve_target(None, true).ok().unwrap();
    assert!(fallback.node_name.is_none());
    assert_eq!(fallback.device.id, DEFAULT_DEVICE_ID);
    assert_eq!(fallback.device.name, "System default");
    assert_eq!(fallback.device.channels, FALLBACK_CHANNELS);
    assert_eq!(snapshot.resolve_node_name(device_id("mic"), false).ok().unwrap(), "mic");
    assert!(!snapshot.resolve_node_name(device_id("mic"), true).err().unwrap().retryable);
}

#[test]
fn devices_list_system_audio_first_then_the_default_then_by_name() {
    let mut snapshot = Snapshot::new();
    snapshot.apply_metadata(true, "default.audio.source", r#"{"name":"usb-mic"}"#);
    snapshot.apply_metadata(true, "default.audio.sink", r#"{"name":"speakers"}"#);
    for (name, label, is_sink) in [
        ("webcam-mic", "webcam", false),
        ("usb-mic", "USB Mic", false),
        ("hdmi", "hdmi out", true),
        ("speakers", "Speakers", true),
        ("analog", "Analog Out", true),
    ] {
        snapshot.nodes.push(NodeEntry {
            node_name: name.to_string(),
            label: label.to_string(),
            is_sink,
            channels: 0,
        });
    }
    let names: Vec<String> = snapshot.list_devices().into_iter().map(|d| d.name).collect();
    assert_eq!(names, vec!["Speakers", "Analog Out", "hdmi out", "USB Mic", "webcam"]);
    let devices = snapshot.list_devices();
    assert!(devices[0].is_default && devices[0].is_loopback);
    assert!(devices.iter().all(|d| d.channels == 1 && d.sample_rate == FALLBACK_SAMPLE_RATE));
}

fn process(pid: u32, comm: &str, exe: &str) -> (String, String, String) {
    (pid.to_string(), format!("{comm}\n"), format!("{exe}\0"))
}

#[test]
fn exact_process_name_beats_a_containing_helper() {
    let weak_first = vec![
        process(100, "vrchat-helper", "/usr/bin/vrchat-helper"),
        process(200, "VRChat.exe", "/opt/VRChat.exe"),
    ];
    assert_eq!(find_process_among("VRChat.exe", &weak_first), Some(200));
    let strong_first = vec![
        process(100, "VRChat.exe", "/opt/VRChat.exe"),
        process(200, "vrchat-helper", "/usr/bin/vrchat-helper"),
    ];
    assert_eq!(find_process_among("VRChat.exe", &strong_first), Some(100));
}

#[test]
fn exact_comm_beats_a_matching_executable_path() {
    let procs = vec![
        process(10, "vrchat-helper", "/usr/bin/python3"),
        process(20, "python3", "/opt/vrchat/VRChat.exe"),
    ];
    assert_eq!(find_process_among("VRChat.exe", &procs), Some(20));
}

#[test]
fn long_executable_names_match_through_argv0_only() {
    let procs = vec![
        process(7, "wine64-preloader", "/opt/vrcs_core-long-name-helper"),
        process(8, "bash", "/usr/bin/bash"),
    ];
    assert_eq!(find_process_among("vrcs_core-long-name", &procs), Some(7));
}

#[test]
fn blank_names_and_non_process_entries_find_nothing() {
    assert_eq!(find_process_among("   ", &vec![process(1, "x", "x")]), None);
    assert_eq!(find_process_among("VRChat.exe", &vec![]), None);
    let procs = vec![("self".to_string(), "VRChat.exe".to_string(), String::new())];
    assert_eq!(find_process_among("VRChat.exe", &procs), None);
    assert_eq!(process_needle("  VRChat.exe.exe "), Some("vrchat".to_string()));
    assert_eq!(process_needle(".exe"), None);
}
