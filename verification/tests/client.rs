use patchwire::client::{
    any_secondary_enabled, fetch_decision, find_sink, quick_action_look, quick_action_press, sink_layout,
    sink_row_labels, toggle_target, FetchDecision, FindSinkError, ToggleError,
};
use patchwire::daemon::SinkInfo;

fn sink(name: &str, description: &str, is_default: bool, is_enabled: bool) -> SinkInfo {
    SinkInfo {
        name: name.to_string(),
        description: description.to_string(),
        is_default,
        is_linked: false,
        is_enabled,
    }
}

fn sinks() -> Vec<SinkInfo> {
    vec![
        sink("alsa_output.pci.analog-stereo", "Built-in Audio Analog Stereo", true, false),
        sink("bluez_output.AA_BB", "WH-1000XM4", false, true),
        sink("alsa_output.hdmi", "HDMI Output", false, false),
    ]
}

#[test]
fn find_sink_ignores_case() {
    let s = sinks();
    assert_eq!(find_sink(&s, "wh-1000").unwrap().name, "bluez_output.AA_BB");
    assert_eq!(find_sink(&s, "BLUEZ").unwrap().description, "WH-1000XM4");
    assert_eq!(find_sink(&s, "hdmi OUTPUT").unwrap().name, "alsa_output.hdmi");
}

#[test]
fn find_sink_no_match() {
    let s = sinks();
    match find_sink(&s, "speaker") {
        Err(FindSinkError::NoMatch { input }) => assert_eq!(input, "speaker"),
        other => panic!("unexpected {other:?}"),
    }
    assert!(matches!(find_sink(&[], "x"), Err(FindSinkError::NoMatch { .. })));
}

#[test]
fn find_sink_ambiguous_lists_descriptions() {
    let s = sinks();
    match find_sink(&s, "ALSA") {
        Err(FindSinkError::Ambiguous { input, descriptions }) => {
            assert_eq!(input, "ALSA");
            assert_eq!(descriptions, vec!["Built-in Audio Analog Stereo", "HDMI Output"]);
        },
        other => panic!("unexpected {other:?}"),
    }
    assert!(matches!(find_sink(&s, ""), Err(FindSinkError::Ambiguous { descriptions, .. }) if descriptions.len() == 3));
}

#[test]
fn toggle_flips_switch_except_default() {
    let s = sinks();
    assert!(matches!(toggle_target(&s[1]), Ok(false)));
    assert!(matches!(toggle_target(&s[2]), Ok(true)));
    match toggle_target(&s[0]) {
        Err(ToggleError::IsDefault { description }) => assert_eq!(description, "Built-in Audio Analog Stereo"),
        other => panic!("unexpected {other:?}"),
    }
}

#[test]
fn list_labels() {
    let s = sinks();
    assert_eq!(sink_row_labels(&s[0]), ("-", "default", "(source)"));
    assert_eq!(sink_row_labels(&s[1]), ("-", "-", "yes"));
    assert_eq!(sink_row_labels(&s[2]), ("-", "-", "no"));
    let mut linked = sink("x", "X", false, true);
    linked.is_linked = true;
    assert_eq!(sink_row_labels(&linked), ("linked", "-", "yes"));
}

#[test]
fn window_layout() {
    let s = sinks();
    let layout = sink_layout(&s);
    assert_eq!(layout.default_index, Some(0));
    assert_eq!(layout.rows, vec![1, 2]);
    assert!(any_secondary_enabled(&s));
    let quiet = vec![sink("a", "A", false, false), sink("b", "B", true, true)];
    assert!(!any_secondary_enabled(&quiet));
    let none_default = vec![sink("a", "A", false, false)];
    assert_eq!(sink_layout(&none_default).default_index, None);
    assert_eq!(sink_layout(&none_default).rows, vec![0]);
}

#[test]
fn initial_fetch_retries_ten_times() {
    assert_eq!(fetch_decision(1, true), FetchDecision::Accept);
    assert_eq!(fetch_decision(1, false), FetchDecision::Retry);
    assert_eq!(fetch_decision(9, false), FetchDecision::Retry);
    assert_eq!(fetch_decision(10, false), FetchDecision::GiveUp);
    assert_eq!(fetch_decision(10, true), FetchDecision::Accept);
}

#[test]
fn quick_action_flips_and_labels() {
    assert!(quick_action_press(false));
    assert!(!quick_action_press(true));
    assert_eq!(quick_action_look(true), ("All Off", "destructive-action", "suggested-action"));
    assert_eq!(quick_action_look(false), ("All On", "suggested-action", "destructive-action"));
}
