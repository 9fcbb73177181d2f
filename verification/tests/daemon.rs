use patchwire::config::Config;
use patchwire::daemon::{DaemonError, DaemonSignal, PatchwireInterface, SinkInfo};
use patchwire::graph::{NodeInfo, PortDirection, PortInfo};
use patchwire::messages::{PwCommand, PwEvent};
use patchwire::state::State;

fn node(id: u32, name: &str, class: &str) -> NodeInfo {
    NodeInfo { id, name: name.to_string(), description: format!("{name} desc"), media_class: class.to_string() }
}

fn daemon() -> PatchwireInterface {
    let mut d = PatchwireInterface::new(State::new(), Config::new());
    d.handle_event(PwEvent::NodeAdded(node(1, "speakers", "Audio/Sink")));
    d.handle_event(PwEvent::NodeAdded(node(2, "headphones", "Audio/Sink")));
    d.handle_event(PwEvent::NodeAdded(node(3, "hdmi", "Audio/Sink")));
    d.handle_event(PwEvent::NodeAdded(node(4, "mic", "Audio/Source")));
    d
}

fn sorted(mut v: Vec<SinkInfo>) -> Vec<SinkInfo> {
    v.sort_by(|a, b| a.name.cmp(&b.name));
    v
}

#[test]
fn list_sinks_reports_each_sink() {
    let mut d = daemon();
    d.default_sink = Some("speakers".to_string());
    d.set_sink_enabled("headphones".to_string(), true);
    let sinks = sorted(d.list_sinks());
    let names: Vec<&str> = sinks.iter().map(|s| s.name.as_str()).collect();
    assert_eq!(names, vec!["hdmi", "headphones", "speakers"]);
    assert_eq!(sinks[1].description, "headphones desc");
    assert!(sinks[1].is_enabled && !sinks[1].is_default && !sinks[1].is_linked);
    assert!(sinks[2].is_default && !sinks[2].is_enabled);
    assert!(!sinks[0].is_enabled && !sinks[0].is_default);
}

#[test]
fn set_sink_enabled_gives_link_or_unlink() {
    let mut d = daemon();
    assert!(matches!(d.set_sink_enabled("hdmi".to_string(), true), PwCommand::LinkSink { name } if name == "hdmi"));
    assert!(d.state.is_sink_enabled("hdmi"));
    assert!(matches!(d.set_sink_enabled("hdmi".to_string(), false), PwCommand::UnlinkSink { name } if name == "hdmi"));
    assert!(!d.state.is_sink_enabled("hdmi"));
}

#[test]
fn profile_round_trip_restores_switches() {
    let mut d = daemon();
    d.set_sink_enabled("headphones".to_string(), true);
    d.set_sink_enabled("hdmi".to_string(), false);
    d.set_sink_enabled("elsewhere".to_string(), true);
    d.save_profile("evening".to_string());
    d.set_sink_enabled("headphones".to_string(), false);
    d.set_sink_enabled("hdmi".to_string(), true);
    let cmds = d.set_active_profile("evening").expect("profile");
    assert_eq!(cmds.len(), 3);
    assert!(d.state.is_sink_enabled("headphones"));
    assert!(!d.state.is_sink_enabled("hdmi"));
    assert!(!d.state.is_sink_enabled("speakers"));
    assert!(d.state.is_sink_enabled("elsewhere"));
    assert_eq!(d.config.active_profile.as_deref(), Some("evening"));
    let linked: Vec<&str> = cmds
        .iter()
        .filter_map(|c| match c {
            PwCommand::LinkSink { name } => Some(name.as_str()),
            _ => None,
        })
        .collect();
    assert_eq!(linked, vec!["headphones"]);
}

#[test]
fn saved_profile_lists_enabled_sinks() {
    let mut d = daemon();
    d.set_sink_enabled("headphones".to_string(), true);
    d.set_sink_enabled("speakers".to_string(), false);
    d.save_profile("p".to_string());
    let p = d.config.profiles.get("p").expect("saved");
    assert!(p.description.is_none());
    assert_eq!(p.enabled_sinks, vec!["headphones".to_string()]);
    assert_eq!(d.get_profiles(), vec!["p".to_string()]);
}

#[test]
fn unknown_profile_is_refused() {
    let mut d = daemon();
    match d.set_active_profile("nope") {
        Err(DaemonError::ProfileNotFound { name }) => assert_eq!(name, "nope"),
        other => panic!("unexpected {other:?}"),
    }
    assert!(d.config.active_profile.is_none());
}

#[test]
fn deleted_profile_cannot_be_activated() {
    let mut d = daemon();
    d.save_profile("p".to_string());
    assert!(d.delete_profile("p").is_ok());
    assert!(matches!(d.set_active_profile("p"), Err(DaemonError::ProfileNotFound { .. })));
    assert!(matches!(d.delete_profile("p"), Err(DaemonError::ProfileNotFound { name }) if name == "p"));
    assert!(d.get_profiles().is_empty());
}

#[test]
fn default_sink_name() {
    let mut d = daemon();
    assert_eq!(d.get_default_sink(), "");
    d.default_sink = Some("hdmi".to_string());
    assert_eq!(d.get_default_sink(), "hdmi");
}

#[test]
fn sink_node_id_lookup() {
    let d = daemon();
    assert_eq!(d.sink_node_id("headphones").unwrap(), 2);
    assert!(matches!(d.sink_node_id("tv"), Err(DaemonError::SinkNotFound { name }) if name == "tv"));
}

#[test]
fn events_update_graph_and_signal() {
    let mut d = daemon();
    let port = PortInfo { id: 30, node_id: 2, name: "playback_FL".to_string(), direction: PortDirection::Input };
    assert_eq!(d.handle_event(PwEvent::PortAdded(port)).0, None);
    assert_eq!(d.graph.port_list().len(), 1);
    let (sig, cmds) = d.handle_event(PwEvent::NodeRemoved(2));
    assert_eq!(sig, None);
    assert!(cmds.is_empty());
    assert_eq!(d.graph.port_list().len(), 0);
    assert!(d.graph.node_by_name("headphones").is_none());
    assert_eq!(d.handle_event(PwEvent::PortRemoved(2)).0, None);
    let (sig, cmds) = d.handle_event(PwEvent::SinkAdded { name: "x".to_string(), description: "X".to_string() });
    assert_eq!(sig, Some(DaemonSignal::SinksChanged));
    assert!(cmds.is_empty());
    assert_eq!(d.handle_event(PwEvent::SinkRemoved { name: "x".to_string() }).0, Some(DaemonSignal::SinksChanged));
    let (sig, _) = d.handle_event(PwEvent::DefaultChanged { name: "hdmi".to_string() });
    assert_eq!(sig, Some(DaemonSignal::DefaultChanged { new_default: "hdmi".to_string() }));
    assert_eq!(d.default_sink.as_deref(), Some("hdmi"));
    assert_eq!(d.list_sinks().len(), 2);
}

#[test]
fn enabled_new_sink_is_linked() {
    let mut d = daemon();
    d.set_sink_enabled("bt".to_string(), true);
    // no default sink yet: nothing to link from
    let (_, cmds) = d.handle_event(PwEvent::SinkAdded { name: "bt".to_string(), description: "BT".to_string() });
    assert!(cmds.is_empty());
    d.default_sink = Some("speakers".to_string());
    let (_, cmds) = d.handle_event(PwEvent::SinkAdded { name: "bt".to_string(), description: "BT".to_string() });
    assert_eq!(cmds.len(), 1);
    assert!(matches!(&cmds[0], PwCommand::LinkSink { name } if name == "bt"));
    let (_, cmds) = d.handle_event(PwEvent::SinkAdded { name: "tv".to_string(), description: "TV".to_string() });
    assert!(cmds.is_empty());
    // the default sink itself is never linked to itself
    d.set_sink_enabled("speakers".to_string(), true);
    let (_, cmds) = d.handle_event(PwEvent::SinkAdded { name: "speakers".to_string(), description: "S".to_string() });
    assert!(cmds.is_empty());
}

#[test]
fn auto_link_links_every_new_sink() {
    let mut d = daemon();
    d.config.auto_link_new = true;
    d.default_sink = Some("speakers".to_string());
    let (_, cmds) = d.handle_event(PwEvent::SinkAdded { name: "tv".to_string(), description: "TV".to_string() });
    assert_eq!(cmds.len(), 1);
    assert!(matches!(&cmds[0], PwCommand::LinkSink { name } if name == "tv"));
}

#[test]
fn new_default_relinks_enabled_sinks() {
    let mut d = daemon();
    d.set_sink_enabled("headphones".to_string(), true);
    d.set_sink_enabled("hdmi".to_string(), true);
    d.set_sink_enabled("speakers".to_string(), false);
    let (_, cmds) = d.handle_event(PwEvent::DefaultChanged { name: "hdmi".to_string() });
    let linked: Vec<&str> = cmds
        .iter()
        .map(|c| match c {
            PwCommand::LinkSink { name } => name.as_str(),
            _ => panic!("unexpected command"),
        })
        .collect();
    assert_eq!(linked, vec!["headphones"]);
}

#[test]
fn link_state_is_reported() {
    let mut d = daemon();
    d.links_made("headphones".to_string());
    let sinks = sorted(d.list_sinks());
    assert!(sinks[1].is_linked);
    assert!(!sinks[0].is_linked && !sinks[2].is_linked);
    d.links_removed("headphones");
    assert!(d.list_sinks().iter().all(|s| !s.is_linked));
}

#[test]
fn profile_restored_after_other_steps() {
    let mut d = daemon();
    d.set_sink_enabled("headphones".to_string(), true);
    d.save_profile("p".to_string());
    d.set_sink_enabled("headphones".to_string(), false);
    d.set_sink_enabled("hdmi".to_string(), true);
    d.save_profile("other".to_string());
    d.handle_event(PwEvent::NodeAdded(node(9, "usb", "Audio/Sink")));
    d.set_active_profile("p").expect("profile");
    assert!(d.state.is_sink_enabled("headphones"));
    assert!(!d.state.is_sink_enabled("hdmi"));
    assert!(!d.state.is_sink_enabled("usb"));
}
