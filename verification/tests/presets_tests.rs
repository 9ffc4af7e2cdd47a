use pipewire_web_remote::controller::AudioController;
use pipewire_web_remote::logger::{format_log_line, should_forward_log, LogVisitor};
use pipewire_web_remote::models::{
    AudioDevice, Channel, CreateLinkRequest, DeviceState, DeviceType, Node, NodeType, Port,
    PortDirection,
};
use pipewire_web_remote::presets::{
    preset_name_of_file, resolve_preset_links, LinkSpec, Preset, PresetManager,
};
use pipewire_web_remote::systemd::{install_flags_ok, service_unit_text};

fn node_with_ports(id: u32, name: &str, ports: Vec<Port>) -> Node {
    Node { id, name: name.to_string(), node_type: NodeType::Device, ports }
}

fn port(id: u32, node_id: u32, name: &str, direction: PortDirection) -> Port {
    Port { id, node_id, name: name.to_string(), direction }
}

fn spec(on: &str, op: &str, inn: &str, ip: &str) -> LinkSpec {
    LinkSpec {
        output_node: on.to_string(),
        output_port: op.to_string(),
        input_node: inn.to_string(),
        input_port: ip.to_string(),
    }
}

#[test]
fn preset_links_resolve_names_to_ids() {
    let nodes = vec![
        node_with_ports(1, "mic", vec![port(10, 1, "capture", PortDirection::Output)]),
        node_with_ports(2, "speakers", vec![port(20, 2, "playback", PortDirection::Input)]),
    ];
    let preset = Preset {
        name: "default".to_string(),
        description: "mic to speakers".to_string(),
        links: vec![
            spec("mic", "capture", "speakers", "playback"),
            spec("mic", "capture", "speakers", "missing-port"),
            spec("mic", "capture", "missing-node", "playback"),
        ],
    };
    let resolved = resolve_preset_links(&nodes, &preset);
    assert_eq!(
        resolved,
        vec![CreateLinkRequest { output_node: 1, output_port: 10, input_node: 2, input_port: 20 }]
    );
}

#[test]
fn preset_resolution_takes_first_match() {
    let nodes = vec![
        node_with_ports(1, "twin", vec![port(10, 1, "out", PortDirection::Output)]),
        node_with_ports(2, "twin", vec![port(20, 2, "out", PortDirection::Output)]),
        node_with_ports(3, "sink", vec![port(30, 3, "in", PortDirection::Input)]),
    ];
    let preset = Preset {
        name: "p".to_string(),
        description: String::new(),
        links: vec![spec("twin", "out", "sink", "in")],
    };
    let resolved = resolve_preset_links(&nodes, &preset);
    assert_eq!(resolved[0].output_node, 1);
    assert_eq!(resolved[0].output_port, 10);
}

#[test]
fn preset_file_names_round_trip() {
    assert_eq!(preset_name_of_file("studio.json"), Some("studio".to_string()));
    assert_eq!(preset_name_of_file("studio.txt"), None);
    assert_eq!(preset_name_of_file("nested.json.json"), Some("nested.json".to_string()));
    let mgr = PresetManager::new("/home/user");
    assert_eq!(mgr.base_path(), "/home/user/.config/audio-remote/presets");
    assert_eq!(
        mgr.preset_path("studio"),
        "/home/user/.config/audio-remote/presets/studio.json"
    );
}

#[test]
fn log_targets_from_the_serving_stack_are_dropped() {
    assert!(!should_forward_log("axum::serve"));
    assert!(!should_forward_log("hyper::proto"));
    assert!(!should_forward_log("tokio_tungstenite::ws"));
    assert!(!should_forward_log("tower_http::trace"));
    assert!(should_forward_log("pipewire_web_remote::graph"));
}

#[test]
fn log_lines_are_rendered_exactly() {
    assert_eq!(format_log_line("INFO", "engine", "started"), "[INFO] [engine] started");
}

#[test]
fn log_visitor_collects_the_message_field() {
    let mut v = LogVisitor::new();
    v.record_str("other", "first");
    assert_eq!(v.message, "first");
    v.record_str("another", "ignored");
    assert_eq!(v.message, "first");
    v.record_str("message", "the message");
    assert_eq!(v.message, "the message");
}

#[test]
fn log_visitor_strips_debug_quotes() {
    let mut v = LogVisitor::new();
    v.record_debug("message", "\"quoted\"");
    assert_eq!(v.message, "quoted");
    let mut v = LogVisitor::new();
    v.record_debug("message", "plain");
    assert_eq!(v.message, "plain");
}

#[test]
fn install_flags_validated() {
    assert!(install_flags_ok(true, true));
    assert!(install_flags_ok(true, false));
    assert!(install_flags_ok(false, false));
    assert!(!install_flags_ok(false, true));
}

#[test]
fn service_unit_embeds_the_binary_path() {
    let text = service_unit_text("/usr/bin/audio-remote");
    assert!(text.contains("ExecStart=/usr/bin/audio-remote --listen 127.0.0.1:8449\n"));
    assert!(text.starts_with("[Unit]\n"));
    assert!(text.ends_with("WantedBy=default.target\n"));
}

#[test]
fn controller_starts_with_builtin_output() {
    let c = AudioController::new();
    let devices = c.list_devices();
    assert_eq!(devices.len(), 1);
    assert_eq!(devices[0].id, 1);
    assert_eq!(devices[0].channels.len(), 2);
    assert_eq!(devices[0].channels[0].volume, 750);
    assert!(c.get_device(1).is_some());
    assert!(c.get_device(2).is_none());
}

#[test]
fn controller_add_replaces_and_remove_deletes() {
    let mut c = AudioController::new();
    c.add_device(AudioDevice {
        id: 1,
        name: "replacement".to_string(),
        description: "new".to_string(),
        device_type: DeviceType::Source,
        state: DeviceState::Idle,
        channels: vec![Channel { index: 0, name: "Master".to_string(), volume: 500 }],
        muted: true,
        base_volume: 1000,
    });
    let devices = c.list_devices();
    assert_eq!(devices.len(), 1);
    assert_eq!(devices[0].name, "replacement");
    c.remove_device(1);
    assert!(c.list_devices().is_empty());
}
