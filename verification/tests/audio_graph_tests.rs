use vrcs_core::audio_graph::{format_step, start_timeout, stream_error, streaming_failure, FormatStep};
use vrcs_core::audio_graph::{
    application_device, startup_ready, valid_node_id, GraphSnapshot, APPLICATION_DEVICE_ID,
    OUTPUT_STREAM_CLASS,
};

fn graph() -> GraphSnapshot {
    let mut g = GraphSnapshot::new();
    g.add_node(40, Some(OUTPUT_STREAM_CLASS), Some("7"));
    g.add_node(12, Some(OUTPUT_STREAM_CLASS), Some("7"));
    g.add_node(30, Some("Stream/Input/Audio"), Some("7"));
    g.add_node(25, Some(OUTPUT_STREAM_CLASS), Some("8"));
    g.add_node(26, Some(OUTPUT_STREAM_CLASS), None);
    g.add_node(99, None, Some("not a number"));
    assert!(g.add_port(101, Some("40"), Some("out"), Some("output_FR")));
    assert!(g.add_port(100, Some("40"), Some("out"), Some("output_FL")));
    assert!(g.add_port(102, Some("40"), Some("in"), Some("input_FL")));
    assert!(g.add_port(120, Some("12"), Some("out"), Some("output_MONO")));
    assert!(!g.add_port(500, Some("x"), Some("out"), Some("orphan")));
    assert!(g.add_port(900, Some("1"), Some("in"), Some("input_FR")));
    assert!(g.add_port(901, Some("1"), Some("in"), Some("input_FL")));
    g
}

#[test]
fn output_streams_of_a_process_are_sorted_by_node_id() {
    let mut g = graph();
    let client_nodes = g.wanted_clients();
    assert_eq!(client_nodes, vec![7, 7, 8]);
    assert!(g.record_client(&client_nodes, 7, Some(1000)));
    assert!(!g.record_client(&client_nodes, 9, Some(1000)));
    assert!(g.record_client(&client_nodes, 8, None));
    let ids: Vec<u32> = g.output_streams_of(1000).iter().map(|n| n.id).collect();
    assert_eq!(ids, vec![12, 40]);
    assert!(g.output_streams_of(2000).is_empty());
    g.set_client_pid(8, 1000);
    let ids: Vec<u32> = g.output_streams_of(1000).iter().map(|n| n.id).collect();
    assert_eq!(ids, vec![12, 25, 40]);
}

#[test]
fn bound_client_info_overrides_the_secure_pid() {
    let mut g = graph();
    let wanted = g.wanted_clients();
    g.record_client(&wanted, 7, Some(1000));
    g.set_client_pid(7, 4242);
    assert!(g.output_streams_of(1000).is_empty());
    assert_eq!(g.output_streams_of(4242).len(), 2);
    assert_eq!(g.client_pids, vec![(7, 4242)]);
}

#[test]
fn ports_are_sorted_by_name_and_filtered_by_direction() {
    let g = graph();
    let names: Vec<String> = g.ports_of(40, "out").iter().map(|p| p.name.clone()).collect();
    assert_eq!(names, vec!["output_FL", "output_FR"]);
    assert_eq!(g.ports_of(40, "in").len(), 1);
    assert_eq!(g.input_port_of(1), Some(901));
    assert_eq!(g.input_port_of(40), Some(102));
    assert_eq!(g.input_port_of(12), None);
}

#[test]
fn links_need_both_node_ids() {
    let mut g = GraphSnapshot::new();
    assert!(g.add_link(Some("12"), Some("1")));
    assert!(!g.add_link(Some("12"), None));
    assert!(!g.add_link(Some("-3"), Some("1")));
    assert_eq!(g.links.len(), 1);
    assert_eq!((g.links[0].output_node, g.links[0].input_node), (12, 1));
}

#[test]
fn taps_link_the_first_output_port_of_each_untapped_stream() {
    let mut g = graph();
    g.set_client_pid(7, 1000);
    let plan = g.plan_taps(1000, 1, &vec![]);
    assert_eq!(plan.live, vec![12, 40]);
    assert_eq!(plan.create, vec![(12, 120), (40, 100)]);

    g.add_link(Some("12"), Some("1"));
    let plan = g.plan_taps(1000, 1, &vec![12, 40, 77]);
    assert_eq!(plan.live, vec![12, 40]);
    assert_eq!(plan.create, vec![(40, 100)]);

    let plan = g.plan_taps(1000, 1, &vec![77]);
    assert_eq!(plan.create, vec![(12, 120), (40, 100)]);
}

#[test]
fn streams_without_output_ports_are_skipped() {
    let mut g = GraphSnapshot::new();
    g.add_node(5, Some(OUTPUT_STREAM_CLASS), Some("3"));
    g.set_client_pid(3, 10);
    let plan = g.plan_taps(10, 1, &vec![]);
    assert_eq!(plan.live, vec![5]);
    assert!(plan.create.is_empty());
}

#[test]
fn node_ids_are_valid_once_bound() {
    assert_eq!(valid_node_id(0), None);
    assert_eq!(valid_node_id(u32::MAX), None);
    assert_eq!(valid_node_id(57), Some(57));
}

#[test]
fn startup_waits_for_the_input_port_or_the_accepted_format() {
    assert!(!startup_ready(true, true, true, None));
    assert!(startup_ready(true, false, false, Some(3)));
    assert!(!startup_ready(false, true, false, Some(3)));
    assert!(startup_ready(false, true, true, None));
}

#[test]
fn per_process_capture_reports_an_application_device() {
    let device = application_device(16_000);
    assert_eq!(device.id, APPLICATION_DEVICE_ID);
    assert_eq!(device.id, -1);
    assert_eq!(device.name, "Application audio");
    assert!(!device.is_default);
    assert!(device.is_loopback);
    assert_eq!(device.sample_rate, 16_000);
    assert_eq!(device.channels, 1);
}

#[test]
fn capture_accepts_only_mono_float_at_the_wanted_rate() {
    assert!(matches!(format_step(true, true, 16000, 1, 16000, 0), FormatStep::Accept));
    assert!(matches!(
        format_step(true, true, 48000, 2, 16000, 0),
        FormatStep::Renegotiate { attempts: 1 }
    ));
    let FormatStep::Fail(e) = format_step(true, false, 48000, 2, 16000, 3) else {
        panic!("the fourth mismatch fails");
    };
    assert_eq!(e.code, "audio.unsupported_format");
    assert_eq!(e.message, "PipeWire negotiated an unsupported capture format: 48000 Hz, 2 channel(s)");
    let FormatStep::Fail(e) = format_step(false, true, 16000, 1, 16000, 0) else {
        panic!("non-raw audio fails");
    };
    assert_eq!(e.message, "The selected audio source does not provide raw audio");
    assert!(streaming_failure(true, false, false).is_some());
    assert!(streaming_failure(true, true, false).is_none());
    assert!(streaming_failure(false, false, false).is_none());
    assert!(stream_error("node gone").retryable);
    assert_eq!(start_timeout().code, "audio.start_timeout");
}
