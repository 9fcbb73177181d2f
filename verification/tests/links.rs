use patchwire::graph::{Graph, NodeInfo, PortDirection, PortInfo};
use patchwire::link_manager::{destroy_links, links_for_sink, plan_links, LinkError, LinkRequestError, LinkSpec};
use patchwire::names::NameMap;

fn sink(id: u32, name: &str) -> NodeInfo {
    NodeInfo { id, name: name.to_string(), description: name.to_uppercase(), media_class: "Audio/Sink".to_string() }
}

fn port(id: u32, node_id: u32, name: &str) -> PortInfo {
    let direction = if name.starts_with("monitor") { PortDirection::Output } else { PortDirection::Input };
    PortInfo { id, node_id, name: name.to_string(), direction }
}

fn full_graph() -> Graph {
    let mut g = Graph::new();
    g.add_node(sink(1, "speakers"));
    g.add_node(sink(2, "headphones"));
    g.add_port(port(10, 1, "monitor_FL"));
    g.add_port(port(11, 1, "monitor_FR"));
    g.add_port(port(20, 2, "playback_FL"));
    g.add_port(port(21, 2, "playback_FR"));
    g
}

#[test]
fn plan_links_left_then_right() {
    let g = full_graph();
    let plan = plan_links(&g, "speakers", "headphones");
    assert!(plan.error.is_none());
    assert_eq!(
        plan.links,
        vec![
            LinkSpec { output_port: 10, input_port: 20, output_node: 1, input_node: 2 },
            LinkSpec { output_port: 11, input_port: 21, output_node: 1, input_node: 2 },
        ]
    );
}

#[test]
fn plan_links_missing_default() {
    let g = full_graph();
    let plan = plan_links(&g, "tv", "headphones");
    assert!(plan.links.is_empty());
    match plan.error {
        Some(LinkError::DefaultSinkNotFound { name }) => assert_eq!(name, "tv"),
        other => panic!("unexpected {other:?}"),
    }
}

#[test]
fn plan_links_missing_target() {
    let g = full_graph();
    let plan = plan_links(&g, "speakers", "tv");
    assert!(plan.links.is_empty());
    match plan.error {
        Some(LinkError::TargetSinkNotFound { name }) => assert_eq!(name, "tv"),
        other => panic!("unexpected {other:?}"),
    }
}

#[test]
fn plan_links_missing_source_port() {
    let mut g = full_graph();
    g.remove_port(11);
    let plan = plan_links(&g, "speakers", "headphones");
    assert_eq!(plan.links, vec![LinkSpec { output_port: 10, input_port: 20, output_node: 1, input_node: 2 }]);
    match plan.error {
        Some(LinkError::SourcePortNotFound { port, node }) => {
            assert_eq!(port, "monitor_FR");
            assert_eq!(node, "speakers");
        },
        other => panic!("unexpected {other:?}"),
    }
}

#[test]
fn plan_links_missing_left_dest_port() {
    let mut g = full_graph();
    g.remove_port(20);
    let plan = plan_links(&g, "speakers", "headphones");
    assert!(plan.links.is_empty());
    match plan.error {
        Some(LinkError::DestPortNotFound { port, node }) => {
            assert_eq!(port, "playback_FL");
            assert_eq!(node, "headphones");
        },
        other => panic!("unexpected {other:?}"),
    }
}

#[test]
fn plan_links_left_link_before_missing_right_dest() {
    let mut g = full_graph();
    g.remove_port(21);
    let plan = plan_links(&g, "speakers", "headphones");
    assert_eq!(plan.links, vec![LinkSpec { output_port: 10, input_port: 20, output_node: 1, input_node: 2 }]);
    match plan.error {
        Some(LinkError::DestPortNotFound { port, node }) => {
            assert_eq!(port, "playback_FR");
            assert_eq!(node, "headphones");
        },
        other => panic!("unexpected {other:?}"),
    }
}

#[test]
fn linking_needs_a_default_sink() {
    let g = full_graph();
    assert!(matches!(links_for_sink(&g, None, "headphones"), Err(LinkRequestError::NoDefaultSink)));
    assert!(matches!(links_for_sink(&g, Some("speakers"), "headphones"), Ok(p) if p.links.len() == 2 && p.error.is_none()));
    assert!(matches!(
        links_for_sink(&g, Some("speakers"), "tv"),
        Ok(p) if matches!(p.error, Some(LinkError::TargetSinkNotFound { .. }))
    ));
}

#[test]
fn destroy_returns_recorded_links() {
    let mut active: NameMap<Vec<u32>> = NameMap::new();
    assert!(active.insert("headphones".to_string(), vec![100, 101]).is_none());
    assert_eq!(active.insert("tv".to_string(), vec![7]), None);
    assert_eq!(destroy_links(&mut active, "headphones"), Some(vec![100, 101]));
    assert_eq!(destroy_links(&mut active, "headphones"), None);
    assert_eq!(active.get("tv"), Some(&vec![7]));
}
