use pipewire_web_remote::manager::GraphManager;
use pipewire_web_remote::models::{Link, Node, NodeType, Port, PortDirection};

fn port(id: u32, node_id: u32, name: &str, direction: PortDirection) -> Port {
    Port { id, node_id, name: name.to_string(), direction }
}

fn node(id: u32, name: &str) -> Node {
    Node { id, name: name.to_string(), node_type: NodeType::Device, ports: Vec::new() }
}

fn link(id: u32, on: u32, op: u32, inn: u32, ip: u32) -> Link {
    Link { id, output_node: on, output_port: op, input_node: inn, input_port: ip }
}

#[test]
fn orphan_resolution() {
    let mut mgr = GraphManager::new();
    mgr.add_port(port(100, 7, "out", PortDirection::Output));
    mgr.add_node(node(7, "late"));
    let graph = mgr.get_graph();
    assert_eq!(graph.nodes.len(), 1);
    assert_eq!(graph.nodes[0].id, 7);
    let with_p: Vec<&Port> = graph.nodes[0].ports.iter().filter(|p| p.id == 100).collect();
    assert_eq!(with_p.len(), 1);
    assert_eq!(with_p[0].name, "out");
    assert_eq!(with_p[0].node_id, 7);
}

#[test]
fn orphan_drain_deduplicates() {
    let mut mgr = GraphManager::new();
    mgr.add_port(port(100, 7, "first", PortDirection::Output));
    mgr.add_port(port(100, 7, "second", PortDirection::Output));
    mgr.add_node(node(7, "late"));
    let graph = mgr.get_graph();
    let with_p: Vec<&Port> = graph.nodes[0].ports.iter().filter(|p| p.id == 100).collect();
    assert_eq!(with_p.len(), 1);
    assert_eq!(with_p[0].name, "first");
}

#[test]
fn idempotent_add() {
    let mut mgr = GraphManager::new();
    mgr.add_node(Node {
        id: 3,
        name: "old-name".to_string(),
        node_type: NodeType::Device,
        ports: vec![port(30, 3, "a", PortDirection::Input)],
    });
    mgr.add_node(Node {
        id: 3,
        name: "new-name".to_string(),
        node_type: NodeType::Application,
        ports: vec![port(31, 3, "b", PortDirection::Output)],
    });
    let graph = mgr.get_graph();
    assert_eq!(graph.nodes.len(), 1);
    assert_eq!(graph.nodes[0].id, 3);
    assert_eq!(graph.nodes[0].name, "new-name");
    assert_eq!(graph.nodes[0].ports.len(), 1);
    assert_eq!(graph.nodes[0].ports[0].id, 31);
}

#[test]
fn cascade_on_node_removal() {
    let mut mgr = GraphManager::new();
    let mut a = node(1, "a");
    a.ports.push(port(10, 1, "out", PortDirection::Output));
    let mut b = node(2, "b");
    b.ports.push(port(20, 2, "in", PortDirection::Input));
    mgr.add_node(a);
    mgr.add_node(b);
    mgr.add_link(link(50, 1, 10, 2, 20));
    mgr.remove_node(1);
    let graph = mgr.get_graph();
    assert!(graph.links.is_empty());
    assert_eq!(graph.nodes.len(), 1);
    assert_eq!(graph.nodes[0].id, 2);
}

#[test]
fn cascade_on_port_removal() {
    let mut mgr = GraphManager::new();
    let mut a = node(1, "a");
    a.ports.push(port(10, 1, "out", PortDirection::Output));
    mgr.add_node(a);
    mgr.add_link(link(50, 1, 10, 2, 20));
    mgr.add_link(link(51, 3, 30, 4, 40));
    mgr.remove_port(10);
    let graph = mgr.get_graph();
    assert_eq!(graph.links.len(), 1);
    assert_eq!(graph.links[0].id, 51);
    assert!(graph.nodes[0].ports.is_empty());
}

#[test]
fn noop_removal_unknown_ids() {
    let mut mgr = GraphManager::new();
    let mut a = node(1, "a");
    a.ports.push(port(10, 1, "out", PortDirection::Output));
    mgr.add_node(a);
    mgr.add_link(link(50, 1, 10, 2, 20));
    mgr.remove_node(999);
    mgr.remove_port(999);
    mgr.remove_link(999);
    let graph = mgr.get_graph();
    assert_eq!(graph.nodes.len(), 1);
    assert_eq!(graph.nodes[0].id, 1);
    assert_eq!(graph.nodes[0].name, "a");
    assert_eq!(graph.nodes[0].ports.len(), 1);
    assert_eq!(graph.nodes[0].ports[0].id, 10);
    assert_eq!(graph.links.len(), 1);
    assert_eq!(graph.links[0].id, 50);
}

#[test]
fn add_port_replaces_on_conflict() {
    let mut mgr = GraphManager::new();
    mgr.add_node(node(5, "n"));
    mgr.add_port(port(77, 5, "old", PortDirection::Input));
    mgr.add_port(port(77, 5, "new", PortDirection::Output));
    let graph = mgr.get_graph();
    assert_eq!(graph.nodes[0].ports.len(), 1);
    assert_eq!(graph.nodes[0].ports[0].name, "new");
}

#[test]
fn remove_port_purges_orphans() {
    let mut mgr = GraphManager::new();
    mgr.add_port(port(100, 7, "buffered", PortDirection::Output));
    mgr.remove_port(100);
    mgr.add_node(node(7, "late"));
    let graph = mgr.get_graph();
    assert!(graph.nodes[0].ports.is_empty());
}

#[test]
fn add_link_replaces_same_id() {
    let mut mgr = GraphManager::new();
    mgr.add_link(link(9, 1, 10, 2, 20));
    mgr.add_link(link(9, 3, 30, 4, 40));
    let graph = mgr.get_graph();
    assert_eq!(graph.links.len(), 1);
    assert_eq!(graph.links[0].output_node, 3);
}

#[test]
fn links_kept_as_announced_without_validation() {
    let mut mgr = GraphManager::new();
    mgr.add_link(link(60, 8, 80, 9, 90));
    let graph = mgr.get_graph();
    assert_eq!(graph.links.len(), 1);
    assert!(graph.nodes.is_empty());
}

#[test]
fn clear_resets_everything() {
    let mut mgr = GraphManager::new();
    mgr.add_node(node(1, "a"));
    mgr.add_link(link(50, 1, 10, 2, 20));
    mgr.add_port(port(100, 7, "buffered", PortDirection::Output));
    mgr.clear();
    let graph = mgr.get_graph();
    assert!(graph.nodes.is_empty());
    assert!(graph.links.is_empty());
    mgr.add_node(node(7, "late"));
    assert!(mgr.get_graph().nodes[0].ports.is_empty());
}
