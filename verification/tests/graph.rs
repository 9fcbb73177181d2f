use patchwire::graph::{Graph, NodeInfo, PortDirection, PortInfo};

fn node(id: u32, name: &str, class: &str) -> NodeInfo {
    NodeInfo {
        id,
        name: name.to_string(),
        description: format!("{name} device"),
        media_class: class.to_string(),
    }
}

fn port(id: u32, node_id: u32, name: &str, direction: PortDirection) -> PortInfo {
    PortInfo { id, node_id, name: name.to_string(), direction }
}

#[test]
fn new_graph_is_empty() {
    let g = Graph::new();
    assert!(g.node_list().is_empty());
    assert!(g.port_list().is_empty());
    assert!(g.node_by_name("anything").is_none());
}

#[test]
fn added_node_is_found_by_name() {
    let mut g = Graph::new();
    g.add_node(node(7, "speakers", "Audio/Sink"));
    g.add_node(node(8, "headphones", "Audio/Sink"));
    let n = g.node_by_name("headphones").expect("node");
    assert_eq!(n.id, 8);
    assert_eq!(n.description, "headphones device");
    assert!(g.node_by_name("Headphones").is_none());
    assert_eq!(g.node_list().len(), 2);
}

#[test]
fn add_node_replaces_same_id() {
    let mut g = Graph::new();
    g.add_node(node(7, "old", "Audio/Sink"));
    g.add_node(node(7, "new", "Audio/Sink"));
    assert_eq!(g.node_list().len(), 1);
    assert!(g.node_by_name("old").is_none());
    assert_eq!(g.node_by_name("new").unwrap().id, 7);
}

#[test]
fn remove_node_drops_its_ports() {
    let mut g = Graph::new();
    g.add_node(node(1, "a", "Audio/Sink"));
    g.add_node(node(2, "b", "Audio/Sink"));
    g.add_port(port(10, 1, "monitor_FL", PortDirection::Output));
    g.add_port(port(11, 1, "playback_FL", PortDirection::Input));
    g.add_port(port(20, 2, "playback_FL", PortDirection::Input));
    g.remove_node(1);
    assert!(g.node_by_name("a").is_none());
    assert!(g.node_by_name("b").is_some());
    let ports = g.port_list();
    assert_eq!(ports.len(), 1);
    assert_eq!(ports[0].id, 20);
    assert!(g.ports_for_node(1, None).is_empty());
}

#[test]
fn remove_missing_node_changes_nothing() {
    let mut g = Graph::new();
    g.add_node(node(1, "a", "Audio/Sink"));
    g.add_port(port(10, 1, "monitor_FL", PortDirection::Output));
    g.remove_node(99);
    assert_eq!(g.node_list().len(), 1);
    assert_eq!(g.port_list().len(), 1);
}

#[test]
fn add_then_remove_port_restores_ports() {
    let mut g = Graph::new();
    g.add_port(port(10, 1, "monitor_FL", PortDirection::Output));
    g.add_port(port(11, 1, "monitor_FR", PortDirection::Output));
    g.remove_port(11);
    let ports = g.port_list();
    assert_eq!(ports.len(), 1);
    assert_eq!(ports[0].id, 10);
    g.remove_port(42);
    assert_eq!(g.port_list().len(), 1);
}

#[test]
fn ports_for_node_filters_by_direction() {
    let mut g = Graph::new();
    g.add_port(port(10, 1, "monitor_FL", PortDirection::Output));
    g.add_port(port(11, 1, "playback_FL", PortDirection::Input));
    g.add_port(port(12, 1, "odd", PortDirection::Unknown));
    g.add_port(port(13, 2, "playback_FL", PortDirection::Input));
    let mut all: Vec<u32> = g.ports_for_node(1, None).iter().map(|p| p.id).collect();
    all.sort();
    assert_eq!(all, vec![10, 11, 12]);
    let inputs: Vec<u32> = g.ports_for_node(1, Some(&PortDirection::Input)).iter().map(|p| p.id).collect();
    assert_eq!(inputs, vec![11]);
    let outputs: Vec<u32> = g.ports_for_node(1, Some(&PortDirection::Output)).iter().map(|p| p.id).collect();
    assert_eq!(outputs, vec![10]);
    assert!(g.ports_for_node(3, None).is_empty());
}

#[test]
fn port_by_name_looks_on_the_right_node() {
    let mut g = Graph::new();
    g.add_port(port(10, 1, "playback_FL", PortDirection::Input));
    g.add_port(port(20, 2, "playback_FL", PortDirection::Input));
    assert_eq!(g.port_by_name(2, "playback_FL").unwrap().id, 20);
    assert_eq!(g.port_by_name(1, "playback_FL").unwrap().id, 10);
    assert!(g.port_by_name(1, "playback_FR").is_none());
    assert!(g.port_by_name(3, "playback_FL").is_none());
}

#[test]
fn removed_global_forgotten_as_node_and_port() {
    let mut g = Graph::new();
    g.add_node(node(5, "a", "Audio/Sink"));
    g.add_port(port(5, 9, "stray", PortDirection::Unknown));
    g.add_port(port(6, 5, "monitor_FL", PortDirection::Output));
    g.add_port(port(7, 8, "playback_FL", PortDirection::Input));
    g.remove_node(5);
    g.remove_port(5);
    assert!(g.node_by_name("a").is_none());
    let ids: Vec<u32> = g.port_list().iter().map(|p| p.id).collect();
    assert_eq!(ids, vec![7]);
}
