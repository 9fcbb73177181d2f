use vstd::prelude::*;

use crate::names::NameMap;

verus! {

/// The per-sink routing switches. This layer is separate from profiles, so
/// a one-off toggle does not change a saved profile.
#[derive(Debug)]
pub struct State {
    /// Per sink name: is linking enabled?
    pub sink_enabled: NameMap<bool>,
}

impl State {
    /// Whether routing to the sink called `name` is switched on; a sink never
    /// switched is off.
    pub open spec fn enabled(&self, name: Seq<char>) -> bool {
        self.sink_enabled@.contains_key(name) && self.sink_enabled@[name]
    }

    /// No sink switched on.
    pub fn new() -> (s: Self)
        ensures
            s.sink_enabled@ == Map::<Seq<char>, bool>::empty(),
    {
        State { sink_enabled: NameMap::new() }
    }

    /// Sets the switch of the sink called `name`.
    pub fn set_sink_enabled(&mut self, name: &str, enabled: bool)
        ensures
            final(self).sink_enabled@ == old(self).sink_enabled@.insert(name@, enabled),
    {
        self.sink_enabled.insert(name.to_owned(), enabled);
    }

    /// Whether routing to the sink called `name` is switched on.
    pub fn is_sink_enabled(&self, name: &str) -> (r: bool)
        ensures
            r == self.enabled(name@),
    {
        match self.sink_enabled.get(name) {
            Some(e) => *e,
            None => false,
        }
    }
}

impl Default for State {
    fn default() -> (s: Self)
        ensures
            s.sink_enabled@ == Map::<Seq<char>, bool>::empty(),
    {
        State::new()
    }
}

/// What a switch was last set to is what is read back, and setting one
/// switch leaves every other as it was.
pub proof fn law_switch_read_after_write(before: State, after: State, name: Seq<char>, enabled: bool, other: Seq<char>)
    requires
        after.sink_enabled@ == before.sink_enabled@.insert(name, enabled),
    ensures
        after.enabled(name) == enabled,
        other != name ==> after.enabled(other) == before.enabled(other),
{
}

/// A sink that was never switched is off.
pub proof fn law_switch_default_off(s: State, name: Seq<char>)
    requires
        s.sink_enabled@ == Map::<Seq<char>, bool>::empty(),
    ensures
        !s.enabled(name),
{
}

} // verus!
