use vstd::prelude::*;

use crate::names::NameMap;

verus! {

/// The daemon's settings.
#[derive(Debug)]
pub struct Config {
    /// If true, automatically link any new sink that appears. If false (the
    /// default), new sinks must be enabled by hand.
    pub auto_link_new: bool,
    /// Named profiles, by name.
    pub profiles: NameMap<Profile>,
    /// Name of the profile that was active at last save.
    pub active_profile: Option<String>,
}

/// A profile is a named set of sinks that should be linked.
#[derive(Debug, Clone)]
pub struct Profile {
    pub description: Option<String>,
    /// `node.name` of each sink enabled in this profile.
    pub enabled_sinks: Vec<String>,
}

impl Config {
    /// No automatic linking, no profiles, none active.
    pub fn new() -> (c: Self)
        ensures
            !c.auto_link_new,
            c.profiles@ == Map::<Seq<char>, Profile>::empty(),
            c.active_profile is None,
    {
        Config { auto_link_new: false, profiles: NameMap::new(), active_profile: None }
    }
}

impl Default for Config {
    fn default() -> (c: Self)
        ensures
            !c.auto_link_new,
            c.profiles@ == Map::<Seq<char>, Profile>::empty(),
            c.active_profile is None,
    {
        Config::new()
    }
}

impl Default for Profile {
    fn default() -> (p: Self)
        ensures
            p.description is None,
            p.enabled_sinks@ == Seq::<String>::empty(),
    {
        Profile { description: None, enabled_sinks: Vec::new() }
    }
}

} // verus!
