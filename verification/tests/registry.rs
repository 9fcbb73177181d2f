use patchwire::graph::PortDirection;
use patchwire::messages::PwEvent;
use patchwire::registry::{
    default_sink_from_property, is_audio_sink, is_default_metadata, node_added_events, node_from_props,
    node_id_from_prop, parse_default_sink_name, parse_u32, port_direction_from_prop, port_from_props,
    removal_events,
};

#[test]
fn default_sink_name_is_read_from_metadata() {
    let v = r#"{"name":"alsa_output.pci-0000_00_1f.3.analog-stereo"}"#;
    assert_eq!(parse_default_sink_name(v).as_deref(), Some("alsa_output.pci-0000_00_1f.3.analog-stereo"));
}

#[test]
fn default_sink_name_round_trip() {
    for name in ["a", "bluez_output.XX", "", "über sink"] {
        let v = format!("{{\"name\":\"{name}\"}}");
        assert_eq!(parse_default_sink_name(&v).as_deref(), Some(name));
    }
}

#[test]
fn default_sink_name_missing_parts() {
    assert_eq!(parse_default_sink_name(""), None);
    assert_eq!(parse_default_sink_name(r#"{"nam":"x"}"#), None);
    assert_eq!(parse_default_sink_name(r#"{"name":"unterminated"#), None);
    assert_eq!(parse_default_sink_name(r#"{"name":""}"#).as_deref(), Some(""));
    assert_eq!(parse_default_sink_name(r#"{"x":1,"name":"first","name":"second"}"#).as_deref(), Some("first"));
}

#[test]
fn u32_parsing_matches_std() {
    let cases = ["0", "42", "+42", "-1", "", "+", "-", "4294967295", "4294967296", "12a", " 1", "007", "99999999999999"];
    for c in cases {
        assert_eq!(parse_u32(c), c.parse::<u32>().ok(), "case {c:?}");
    }
}

#[test]
fn node_id_property() {
    assert_eq!(node_id_from_prop(Some("57")), 57);
    assert_eq!(node_id_from_prop(Some("x")), 0);
    assert_eq!(node_id_from_prop(None), 0);
}

#[test]
fn port_direction_property() {
    assert_eq!(port_direction_from_prop(Some("in")), PortDirection::Input);
    assert_eq!(port_direction_from_prop(Some("out")), PortDirection::Output);
    assert_eq!(port_direction_from_prop(Some("IN")), PortDirection::Unknown);
    assert_eq!(port_direction_from_prop(None), PortDirection::Unknown);
}

#[test]
fn node_and_port_from_properties() {
    let n = node_from_props(5, Some("sink"), None, Some("Audio/Sink"));
    assert_eq!(n.id, 5);
    assert_eq!(n.name, "sink");
    assert_eq!(n.description, "");
    assert_eq!(n.media_class, "Audio/Sink");
    let p = port_from_props(9, Some("monitor_FL"), Some("5"), Some("out"));
    assert_eq!(p.id, 9);
    assert_eq!(p.node_id, 5);
    assert_eq!(p.name, "monitor_FL");
    assert_eq!(p.direction, PortDirection::Output);
    let q = port_from_props(10, None, None, None);
    assert_eq!(q.name, "");
    assert_eq!(q.node_id, 0);
    assert_eq!(q.direction, PortDirection::Unknown);
}

#[test]
fn sink_nodes_announce_themselves() {
    assert!(is_audio_sink("Audio/Sink"));
    assert!(!is_audio_sink("Audio/Source"));
    let ev = node_added_events(node_from_props(3, Some("s"), Some("Speakers"), Some("Audio/Sink")));
    assert_eq!(ev.len(), 2);
    assert!(matches!(&ev[0], PwEvent::NodeAdded(n) if n.id == 3));
    assert!(matches!(&ev[1], PwEvent::SinkAdded { name, description } if name == "s" && description == "Speakers"));
    let ev = node_added_events(node_from_props(4, Some("m"), Some("Mic"), Some("Audio/Source")));
    assert_eq!(ev.len(), 1);
    assert!(matches!(&ev[0], PwEvent::NodeAdded(n) if n.id == 4));
}

#[test]
fn removal_forgets_node_and_port() {
    let ev = removal_events(12);
    assert_eq!(ev.len(), 2);
    assert!(matches!(ev[0], PwEvent::NodeRemoved(12)));
    assert!(matches!(ev[1], PwEvent::PortRemoved(12)));
}

#[test]
fn default_metadata_detection() {
    assert!(is_default_metadata(Some("default")));
    assert!(!is_default_metadata(Some("settings")));
    assert!(!is_default_metadata(None));
}

#[test]
fn default_sink_property_change() {
    let v = r#"{"name":"speakers"}"#;
    assert_eq!(default_sink_from_property(Some("default.audio.sink"), Some(v)).as_deref(), Some("speakers"));
    assert_eq!(default_sink_from_property(Some("default.audio.source"), Some(v)), None);
    assert_eq!(default_sink_from_property(Some("default.audio.sink"), None), None);
    assert_eq!(default_sink_from_property(None, Some(v)), None);
    assert_eq!(default_sink_from_property(Some("default.audio.sink"), Some("garbage")), None);
}
