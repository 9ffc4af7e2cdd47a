use pipewire_web_remote::broadcast::{EventBroadcaster, Received, ServerEvent};
use pipewire_web_remote::events::{
    apply_event, command_action, parse_volume_token, removal_events, volume_output_muted,
    PwCommand, PwEvent,
};
use pipewire_web_remote::manager::GraphManager;
use pipewire_web_remote::models::{Link, Port, PortDirection};

fn port(id: u32, node_id: u32) -> Port {
    Port { id, node_id, name: format!("p{}", id), direction: PortDirection::Output }
}

fn link(id: u32) -> Link {
    Link { id, output_node: 1, output_port: 10, input_node: 2, input_port: 20 }
}

#[test]
fn event_loop_publishes_in_order_one_per_event() {
    let mut graph = GraphManager::new();
    let mut b = EventBroadcaster::new();
    let s = b.subscribe();
    let events = vec![
        PwEvent::PortAdded(port(100, 7)),
        PwEvent::LinkAdded(link(50)),
        PwEvent::VolumeChanged(3, 250, None),
        PwEvent::PortRemoved(100),
        PwEvent::LinkRemoved(50),
        PwEvent::DeviceRemoved(7),
    ];
    for e in events {
        apply_event(&mut graph, &mut b, e);
    }
    assert_eq!(b.recv(s), Received::Event(ServerEvent::PortAdded(port(100, 7))));
    assert_eq!(b.recv(s), Received::Event(ServerEvent::LinkAdded(link(50))));
    assert_eq!(
        b.recv(s),
        Received::Event(ServerEvent::VolumeChanged { id: 3, volume: 250, timestamp: None })
    );
    assert_eq!(b.recv(s), Received::Event(ServerEvent::PortRemoved(100)));
    assert_eq!(b.recv(s), Received::Event(ServerEvent::LinkRemoved(50)));
    assert_eq!(b.recv(s), Received::Event(ServerEvent::DeviceRemoved(7)));
    assert_eq!(b.recv(s), Received::Empty);
}

#[test]
fn apply_event_mutates_the_cache() {
    let mut graph = GraphManager::new();
    let mut b = EventBroadcaster::new();
    apply_event(&mut graph, &mut b, PwEvent::LinkAdded(link(50)));
    assert_eq!(graph.get_graph().links.len(), 1);
    apply_event(&mut graph, &mut b, PwEvent::LinkRemoved(50));
    assert!(graph.get_graph().links.is_empty());
    apply_event(&mut graph, &mut b, PwEvent::PortAdded(port(100, 7)));
    assert!(graph.get_graph().nodes.is_empty());
}

#[test]
fn unknown_removal_fans_out_to_every_kind() {
    let evs = removal_events(42);
    assert_eq!(
        evs,
        vec![PwEvent::DeviceRemoved(42), PwEvent::PortRemoved(42), PwEvent::LinkRemoved(42)]
    );
}

#[test]
fn set_volume_renders_percent_and_confirms() {
    let a = command_action(&PwCommand::SetVolume(3, 757, Some(99)));
    assert_eq!(a.program, "wpctl");
    assert_eq!(a.args, vec!["set-volume".to_string(), "3".to_string(), "75%".to_string()]);
    assert_eq!(a.confirmation, Some(PwEvent::VolumeChanged(3, 757, Some(99))));
}

#[test]
fn set_mute_renders_flag() {
    let a = command_action(&PwCommand::SetMute(12, true));
    assert_eq!(a.program, "wpctl");
    assert_eq!(a.args, vec!["set-mute".to_string(), "12".to_string(), "1".to_string()]);
    assert_eq!(a.confirmation, None);
    let a = command_action(&PwCommand::SetMute(12, false));
    assert_eq!(a.args, vec!["set-mute".to_string(), "12".to_string(), "0".to_string()]);
}

#[test]
fn create_and_delete_link_render_ports() {
    let a = command_action(&PwCommand::CreateLink(1, 10, 2, 20));
    assert_eq!(a.program, "pw-link");
    assert_eq!(a.args, vec!["10".to_string(), "20".to_string()]);
    assert_eq!(a.confirmation, None);
    let a = command_action(&PwCommand::DeleteLink(50));
    assert_eq!(a.program, "pw-link");
    assert_eq!(a.args, vec!["-d".to_string(), "50".to_string()]);
}

#[test]
fn volume_tokens_parse_to_thousandths() {
    assert_eq!(parse_volume_token("0.75"), Some(750));
    assert_eq!(parse_volume_token("1.00"), Some(1000));
    assert_eq!(parse_volume_token("1"), Some(1000));
    assert_eq!(parse_volume_token("1.5"), Some(1500));
    assert_eq!(parse_volume_token("0.7559"), Some(755));
    assert_eq!(parse_volume_token("0."), Some(0));
    assert_eq!(parse_volume_token(""), None);
    assert_eq!(parse_volume_token("abc"), None);
    assert_eq!(parse_volume_token("1.2.3"), None);
    assert_eq!(parse_volume_token(".5"), None);
}

#[test]
fn muted_marker_is_detected() {
    assert!(volume_output_muted("Volume: 0.75 [MUTED]"));
    assert!(!volume_output_muted("Volume: 0.75"));
}
