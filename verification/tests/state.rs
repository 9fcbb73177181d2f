use patchwire::config::{Config, Profile};
use patchwire::names::NameMap;
use patchwire::state::State;

#[test]
fn switch_reads_back_what_was_written() {
    let mut s = State::new();
    s.set_sink_enabled("speakers", true);
    assert!(s.is_sink_enabled("speakers"));
    s.set_sink_enabled("headphones", false);
    assert!(s.is_sink_enabled("speakers"));
    assert!(!s.is_sink_enabled("headphones"));
    s.set_sink_enabled("speakers", false);
    assert!(!s.is_sink_enabled("speakers"));
}

#[test]
fn unknown_sink_is_off() {
    let s = State::default();
    assert!(!s.is_sink_enabled("speakers"));
    assert!(!s.is_sink_enabled(""));
}

#[test]
fn name_map_insert_get_remove() {
    let mut m: NameMap<u32> = NameMap::new();
    assert_eq!(m.insert("a".to_string(), 1), None);
    assert_eq!(m.insert("b".to_string(), 2), None);
    assert_eq!(m.insert("a".to_string(), 3), Some(1));
    assert_eq!(m.len(), 2);
    assert_eq!(m.get("a"), Some(&3));
    assert_eq!(m.remove("a"), Some(3));
    assert_eq!(m.remove("a"), None);
    assert_eq!(m.get("a"), None);
    assert_eq!(m.get("b"), Some(&2));
    assert_eq!(m.len(), 1);
}

#[test]
fn name_map_keys_each_once() {
    let mut m: NameMap<bool> = NameMap::new();
    m.insert("x".to_string(), true);
    m.insert("y".to_string(), false);
    m.insert("z".to_string(), true);
    m.insert("x".to_string(), true);
    let mut keys = m.keys();
    keys.sort();
    assert_eq!(keys, vec!["x", "y", "z"]);
    let mut on = m.keys_set_true();
    on.sort();
    assert_eq!(on, vec!["x", "z"]);
}

#[test]
fn default_config_is_empty() {
    let c = Config::default();
    assert!(!c.auto_link_new);
    assert_eq!(c.profiles.len(), 0);
    assert!(c.active_profile.is_none());
    let p = Profile::default();
    assert!(p.description.is_none());
    assert!(p.enabled_sinks.is_empty());
}
