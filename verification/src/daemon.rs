use vstd::prelude::*;

use crate::config::{Config, Profile};
use crate::graph::{Graph, NodeInfo};
use crate::link_manager::{has_node_named, is_node_named};
use crate::messages::{PwCommand, PwEvent};
use crate::names::NameMap;
use crate::registry::{audio_sink_class, is_audio_sink};
use crate::state::State;
use crate::text::str_eq;

verus! {

broadcast use vstd::string::group_string_axioms;

/// What the daemon reports of one audio sink.
#[derive(Debug, Clone)]
pub struct SinkInfo {
    pub name: String,
    pub description: String,
    pub is_default: bool,
    pub is_linked: bool,
    pub is_enabled: bool,
}

/// Why a request to the daemon is refused.
#[derive(Debug)]
pub enum DaemonError {
    /// No profile is saved under this name.
    ProfileNotFound { name: String },
    /// No node of the graph carries this name.
    SinkNotFound { name: String },
}

/// A change the daemon announces to its clients.
#[derive(Debug, PartialEq, Eq)]
pub enum DaemonSignal {
    /// A sink was added to or removed from the graph.
    SinksChanged,
    /// The default sink changed.
    DefaultChanged { new_default: String },
}

/// Everything the daemon knows: the routing switches, the settings, the
/// audio graph, the default sink and the sinks whose links are live.
#[derive(Debug)]
pub struct PatchwireInterface {
    pub state: State,
    pub config: Config,
    pub graph: Graph,
    pub default_sink: Option<String>,
    /// The sinks for which links from the default sink are live.
    pub linked_sinks: NameMap<()>,
}

/// Whether `default_sink` names the sink called `name`.
pub open spec fn is_default_name(default_sink: Option<String>, name: Seq<char>) -> bool {
    default_sink matches Some(d) && d@ == name
}

/// Whether node `id` of `g` is an audio sink.
pub open spec fn is_sink_node(g: Graph, id: u32) -> bool {
    g.node_map().contains_key(id) && g.node_map()[id].media_class@ == audio_sink_class()
}

/// Some audio sink of `g` carries `name`.
pub open spec fn has_sink_named(g: Graph, name: Seq<char>) -> bool {
    exists|id: u32| #[trigger] is_sink_node(g, id) && g.node_map()[id].name@ == name
}

/// `ids` lists the audio sinks of `g`, each once.
pub open spec fn enumerates_sinks(g: Graph, ids: Seq<u32>) -> bool {
    &&& forall|i: int| 0 <= i < ids.len() ==> is_sink_node(g, #[trigger] ids[i])
    &&& forall|id: u32| #[trigger] is_sink_node(g, id) ==> ids.contains(id)
    &&& ids.no_duplicates()
}

/// Whether profile `p` lists the sink called `name`.
pub open spec fn profile_lists(p: Profile, name: Seq<char>) -> bool {
    exists|i: int| 0 <= i < p.enabled_sinks.len() && #[trigger] p.enabled_sinks[i]@ == name
}

/// `c` asks for the sink called `name` to be linked where `enabled`, and
/// unlinked otherwise.
pub open spec fn is_switch_command(c: PwCommand, name: Seq<char>, enabled: bool) -> bool {
    match c {
        PwCommand::LinkSink { name: n } => enabled && n@ == name,
        PwCommand::UnlinkSink { name: n } => !enabled && n@ == name,
        _ => false,
    }
}

/// The switches after applying profile `p` to the sinks of `g`: each sink
/// in the graph is on exactly where the profile lists it; every other
/// switch stays as it was.
pub open spec fn applied_profile(before: Map<Seq<char>, bool>, g: Graph, p: Profile) -> Map<Seq<char>, bool> {
    Map::new(
        |k: Seq<char>| before.contains_key(k) || has_sink_named(g, k),
        |k: Seq<char>|
            if has_sink_named(g, k) {
                profile_lists(p, k)
            } else {
                before[k]
            },
    )
}

/// `p` was saved from `s`: no description, and exactly the sinks switched
/// on in `s`, each once.
pub open spec fn saved_from(p: Profile, s: State) -> bool {
    &&& p.description is None
    &&& forall|i: int| 0 <= i < p.enabled_sinks.len() ==> s.enabled(#[trigger] p.enabled_sinks[i]@)
    &&& forall|k: Seq<char>| #[trigger] s.enabled(k) ==> profile_lists(p, k)
    &&& forall|i: int, j: int|
        0 <= i < p.enabled_sinks.len() && 0 <= j < p.enabled_sinks.len() && i != j
            ==> p.enabled_sinks[i]@ != p.enabled_sinks[j]@
}

/// What `save_profile(name)` leaves: the profile saved from the switches
/// under `name`, all else unchanged.
pub open spec fn save_profile_post(before: PatchwireInterface, after: PatchwireInterface, name: Seq<char>) -> bool {
    &&& after.config.profiles@.contains_key(name)
    &&& after.config.profiles@ == before.config.profiles@.insert(name, after.config.profiles@[name])
    &&& saved_from(after.config.profiles@[name], before.state)
    &&& after.state == before.state
    &&& after.graph == before.graph
    &&& after.default_sink == before.default_sink
    &&& after.linked_sinks == before.linked_sinks
    &&& after.config.active_profile == before.config.active_profile
    &&& after.config.auto_link_new == before.config.auto_link_new
}

/// What `set_active_profile(name)` leaves and returns.
pub open spec fn activate_post(
    before: PatchwireInterface,
    after: PatchwireInterface,
    name: Seq<char>,
    r: Result<Vec<PwCommand>, DaemonError>,
) -> bool {
    &&& match r {
        Ok(cmds) => {
            let p = before.config.profiles@[name];
            &&& before.config.profiles@.contains_key(name)
            &&& after.config.active_profile matches Some(a) && a@ == name
            &&& after.config.profiles@ == before.config.profiles@
            &&& after.config.auto_link_new == before.config.auto_link_new
            &&& after.graph == before.graph
            &&& after.default_sink == before.default_sink
            &&& after.linked_sinks == before.linked_sinks
            &&& after.state.sink_enabled@ == applied_profile(before.state.sink_enabled@, before.graph, p)
            &&& exists|ids: Seq<u32>|
                {
                    &&& enumerates_sinks(before.graph, ids)
                    &&& ids.len() == cmds.len()
                    &&& forall|i: int|
                        0 <= i < ids.len() ==> is_switch_command(
                            #[trigger] cmds[i],
                            before.graph.node_map()[ids[i]].name@,
                            profile_lists(p, before.graph.node_map()[ids[i]].name@),
                        )
                }
        },
        Err(DaemonError::ProfileNotFound { name: n }) => {
            &&& n@ == name
            &&& !before.config.profiles@.contains_key(name)
            &&& after == before
        },
        Err(_) => false,
    }
}

/// What `delete_profile(name)` leaves and returns.
pub open spec fn delete_post(
    before: PatchwireInterface,
    after: PatchwireInterface,
    name: Seq<char>,
    r: Result<(), DaemonError>,
) -> bool {
    &&& after.config.profiles@ == before.config.profiles@.remove(name)
    &&& after.state == before.state
    &&& after.graph == before.graph
    &&& after.default_sink == before.default_sink
    &&& after.linked_sinks == before.linked_sinks
    &&& after.config.active_profile == before.config.active_profile
    &&& after.config.auto_link_new == before.config.auto_link_new
    &&& match r {
        Ok(()) => before.config.profiles@.contains_key(name),
        Err(DaemonError::ProfileNotFound { name: n }) => n@ == name && !before.config.profiles@.contains_key(name),
        Err(_) => false,
    }
}

/// Node `id` of `g` is an audio sink that is switched on and is not the new
/// default sink `new_default`.
pub open spec fn wants_relink(g: Graph, s: State, new_default: Seq<char>, id: u32) -> bool {
    &&& is_sink_node(g, id)
    &&& s.enabled(g.node_map()[id].name@)
    &&& g.node_map()[id].name@ != new_default
}

/// `cmds` links every audio sink of `g` that is switched on and is not
/// `new_default`, one command per such sink.
pub open spec fn relinks(g: Graph, s: State, new_default: Seq<char>, cmds: Seq<PwCommand>) -> bool {
    exists|ids: Seq<u32>|
        {
            &&& ids.no_duplicates()
            &&& forall|j: int| 0 <= j < ids.len() ==> wants_relink(g, s, new_default, #[trigger] ids[j])
            &&& forall|id: u32| #[trigger] wants_relink(g, s, new_default, id) ==> ids.contains(id)
            &&& ids.len() == cmds.len()
            &&& forall|j: int| 0 <= j < ids.len() ==> is_switch_command(#[trigger] cmds[j], g.node_map()[ids[j]].name@, true)
        }
}

/// The commands a newly seen sink called `name` gives: it is linked from the
/// default sink where there is one, it is not that sink, and it is switched
/// on or new sinks are linked automatically; otherwise none.
pub open spec fn new_sink_commands(before: PatchwireInterface, name: Seq<char>, cmds: Seq<PwCommand>) -> bool {
    if before.default_sink matches Some(d) && d@ != name && (before.state.enabled(name)
        || before.config.auto_link_new) {
        cmds.len() == 1 && is_switch_command(cmds[0], name, true)
    } else {
        cmds.len() == 0
    }
}

/// Some of the nodes `ids` of `g` carries `name`.
pub open spec fn seen_name(g: Graph, ids: Seq<u32>, name: Seq<char>) -> bool {
    exists|j: int| 0 <= j < ids.len() && #[trigger] g.node_map()[ids[j]].name@ == name
}

/// `s` reports node `n`: its names, whether it is the default sink, whether
/// links to it are live and whether it is switched on.
pub open spec fn describes_sink(
    s: SinkInfo,
    n: NodeInfo,
    state: State,
    default_sink: Option<String>,
    linked: Map<Seq<char>, ()>,
) -> bool {
    &&& s.name@ == n.name@
    &&& s.description@ == n.description@
    &&& s.is_default == is_default_name(default_sink, n.name@)
    &&& s.is_linked == linked.contains_key(n.name@)
    &&& s.is_enabled == state.enabled(n.name@)
}

/// `r` reports every audio sink of `p`'s graph, each once, in some order.
pub open spec fn sink_listing(p: PatchwireInterface, r: Seq<SinkInfo>) -> bool {
    exists|ids: Seq<u32>|
        {
            &&& enumerates_sinks(p.graph, ids)
            &&& ids.len() == r.len()
            &&& forall|i: int|
                0 <= i < ids.len() ==> describes_sink(
                    #[trigger] r[i],
                    p.graph.node_map()[ids[i]],
                    p.state,
                    p.default_sink,
                    p.linked_sinks@,
                )
        }
}

/// `r` lists the audio sinks of `g`, each once.
pub open spec fn lists_sink_nodes(r: Seq<&NodeInfo>, g: Graph) -> bool {
    &&& forall|i: int| 0 <= i < r.len() ==> is_sink_node(g, #[trigger] r[i].id) && g.node_map()[r[i].id] == *r[i]
    &&& forall|id: u32| #[trigger] is_sink_node(g, id) ==> exists|i: int| 0 <= i < r.len() && r[i].id == id
    &&& forall|i: int, j: int| 0 <= i < r.len() && 0 <= j < r.len() && i != j ==> r[i].id != r[j].id
}

/// The ids of the nodes `r`.
pub open spec fn node_ids(r: Seq<&NodeInfo>) -> Seq<u32> {
    r.map_values(|n: &NodeInfo| n.id)
}

/// The ids of a listing of the sinks enumerate the sinks.
pub proof fn lemma_sink_ids(r: Seq<&NodeInfo>, g: Graph)
    requires
        lists_sink_nodes(r, g),
    ensures
        enumerates_sinks(g, node_ids(r)),
        node_ids(r).len() == r.len(),
        forall|i: int| 0 <= i < r.len() ==> #[trigger] node_ids(r)[i] == r[i].id,
{
    let ids = node_ids(r);
    assert forall|i: int| 0 <= i < ids.len() implies is_sink_node(g, #[trigger] ids[i]) by {
        assert(ids[i] == r[i].id);
    }
    assert forall|id: u32| #[trigger] is_sink_node(g, id) implies ids.contains(id) by {
        let i: int = choose|i: int| 0 <= i < r.len() && r[i].id == id;
        assert(ids[i] == id);
    }
    assert forall|i: int, j: int| 0 <= i < ids.len() && 0 <= j < ids.len() && i != j implies ids[i] != ids[j] by {
        assert(ids[i] == r[i].id && ids[j] == r[j].id);
    }
}

/// The audio sinks of the graph, each once, in no particular order.
pub fn sink_nodes(g: &Graph) -> (r: Vec<&NodeInfo>)
    ensures
        lists_sink_nodes(r@, *g),
{
    let nodes = g.node_list();
    let mut r: Vec<&NodeInfo> = Vec::new();
    let ghost mut at: Seq<int> = Seq::empty();
    let mut i: usize = 0;
    while i < nodes.len()
        invariant
            i <= nodes.len(),
            crate::graph::lists_nodes(nodes@, g.node_map()),
            at.len() == r.len(),
            forall|j: int| 0 <= j < r.len() ==> 0 <= #[trigger] at[j] < i && r[j] == nodes[at[j]],
            forall|j: int| 0 <= j < r.len() ==> is_sink_node(*g, #[trigger] r[j].id),
            forall|a: int, b: int| 0 <= a < b < r.len() ==> at[a] < at[b],
            forall|a: int| 0 <= a < i && is_sink_node(*g, #[trigger] nodes[a].id) ==> exists|j: int|
                0 <= j < r.len() && at[j] == a,
        decreases nodes.len() - i,
    {
        let n = nodes[i];
        assert(g.node_map()[n.id] == *n);
        if is_audio_sink(n.media_class.as_str()) {
            r.push(n);
            proof {
                let old_at = at;
                at = at.push(i as int);
                assert forall|a: int| 0 <= a < i + 1 && is_sink_node(*g, #[trigger] nodes[a].id) implies exists|j: int|
                    0 <= j < r.len() && at[j] == a by {
                    if a == i {
                        assert(at[r.len() - 1] == a);
                    } else {
                        let j: int = choose|j: int| 0 <= j < old_at.len() && old_at[j] == a;
                        assert(at[j] == a);
                    }
                }
            }
        }
        i = i + 1;
    }
    proof {
        assert forall|j: int| 0 <= j < r.len() implies is_sink_node(*g, #[trigger] r[j].id) && g.node_map()[r[j].id]
            == *r[j] by {
            assert(r[j] == nodes[at[j]]);
        }
        assert forall|id: u32| #[trigger] is_sink_node(*g, id) implies exists|j: int| 0 <= j < r.len() && r[j].id == id by {
            let a: int = choose|a: int| 0 <= a < nodes.len() && nodes[a].id == id;
            let j: int = choose|j: int| 0 <= j < r.len() && at[j] == a;
            assert(r[j] == nodes[a]);
        }
        assert forall|a: int, b: int| 0 <= a < r.len() && 0 <= b < r.len() && a != b implies r[a].id != r[b].id by {
            if a < b {
                assert(at[a] < at[b]);
            } else {
                assert(at[b] < at[a]);
            }
        }
    }
    r
}

/// Whether `list` holds a string with the characters of `name`.
pub fn list_contains(list: &Vec<String>, name: &str) -> (r: bool)
    ensures
        r == exists|i: int| 0 <= i < list.len() && #[trigger] list[i]@ == name@,
{
    let mut i: usize = 0;
    while i < list.len()
        invariant
            i <= list.len(),
            forall|j: int| 0 <= j < i ==> #[trigger] list[j]@ != name@,
        decreases list.len() - i,
    {
        if str_eq(list[i].as_str(), name) {
            return true;
        }
        i = i + 1;
    }
    false
}

impl PatchwireInterface {
    /// The daemon as it starts: the saved switches and settings, an empty
    /// graph and no default sink known yet.
    pub fn new(state: State, config: Config) -> (r: Self)
        ensures
            r.state == state,
            r.config == config,
            r.graph.node_map() == Map::<u32, NodeInfo>::empty(),
            r.graph.port_map() == Map::<u32, crate::graph::PortInfo>::empty(),
            r.default_sink is None,
            r.linked_sinks@ == Map::<Seq<char>, ()>::empty(),
    {
        PatchwireInterface { state, config, graph: Graph::new(), default_sink: None, linked_sinks: NameMap::new() }
    }

    /// Every audio sink of the graph with its current state, each once, in
    /// no particular order.
    pub fn list_sinks(&self) -> (r: Vec<SinkInfo>)
        ensures
            sink_listing(*self, r@),
    {
        let sinks = sink_nodes(&self.graph);
        let mut r: Vec<SinkInfo> = Vec::new();
        let mut i: usize = 0;
        while i < sinks.len()
            invariant
                i <= sinks.len(),
                r.len() == i,
                forall|j: int|
                    0 <= j < i ==> describes_sink(
                        #[trigger] r[j],
                        *sinks[j],
                        self.state,
                        self.default_sink,
                        self.linked_sinks@,
                    ),
            decreases sinks.len() - i,
        {
            let n = sinks[i];
            let is_default = match &self.default_sink {
                Some(d) => str_eq(d.as_str(), n.name.as_str()),
                None => false,
            };
            let is_enabled = self.state.is_sink_enabled(n.name.as_str());
            let is_linked = self.linked_sinks.get(n.name.as_str()).is_some();
            r.push(
                SinkInfo {
                    name: n.name.clone(),
                    description: n.description.clone(),
                    is_default,
                    is_linked,
                    is_enabled,
                },
            );
            i = i + 1;
        }
        proof {
            lemma_sink_ids(sinks@, self.graph);
            let ids = node_ids(sinks@);
            assert forall|j: int| 0 <= j < ids.len() implies describes_sink(
                #[trigger] r[j],
                self.graph.node_map()[ids[j]],
                self.state,
                self.default_sink,
                self.linked_sinks@,
            ) by {
                assert(ids[j] == sinks[j].id);
            }
        }
        r
    }

    /// Records that the links to the sink called `name` are live.
    pub fn links_made(&mut self, name: String)
        ensures
            final(self).linked_sinks@ == old(self).linked_sinks@.insert(name@, ()),
            final(self).state == old(self).state,
            final(self).config == old(self).config,
            final(self).graph == old(self).graph,
            final(self).default_sink == old(self).default_sink,
    {
        self.linked_sinks.insert(name, ());
    }

    /// Records that the links to the sink called `name` are gone.
    pub fn links_removed(&mut self, name: &str)
        ensures
            final(self).linked_sinks@ == old(self).linked_sinks@.remove(name@),
            final(self).state == old(self).state,
            final(self).config == old(self).config,
            final(self).graph == old(self).graph,
            final(self).default_sink == old(self).default_sink,
    {
        self.linked_sinks.remove(name);
    }

    /// Sets the switch of the sink called `name` and gives the command that
    /// links it, where `enabled`, or unlinks it.
    pub fn set_sink_enabled(&mut self, name: String, enabled: bool) -> (r: PwCommand)
        ensures
            final(self).state.sink_enabled@ == old(self).state.sink_enabled@.insert(name@, enabled),
            final(self).config == old(self).config,
            final(self).graph == old(self).graph,
            final(self).default_sink == old(self).default_sink,
            final(self).linked_sinks == old(self).linked_sinks,
            r == if enabled {
                PwCommand::LinkSink { name }
            } else {
                PwCommand::UnlinkSink { name }
            },
    {
        self.state.set_sink_enabled(name.as_str(), enabled);
        if enabled {
            PwCommand::LinkSink { name }
        } else {
            PwCommand::UnlinkSink { name }
        }
    }

    /// The names of the saved profiles, each once, in no particular order.
    pub fn get_profiles(&self) -> (r: Vec<String>)
        ensures
            forall|i: int| 0 <= i < r.len() ==> self.config.profiles@.contains_key(#[trigger] r[i]@),
            forall|k: Seq<char>| #[trigger] self.config.profiles@.contains_key(k) ==> exists|i: int|
                0 <= i < r.len() && r[i]@ == k,
            forall|i: int, j: int| 0 <= i < r.len() && 0 <= j < r.len() && i != j ==> r[i]@ != r[j]@,
    {
        self.config.profiles.keys()
    }

    /// Switches to the saved profile `name`: every audio sink in the graph is
    /// switched on exactly where the profile lists it, and the commands that
    /// link or unlink each are given, one per sink.
    pub fn set_active_profile(&mut self, name: &str) -> (r: Result<Vec<PwCommand>, DaemonError>)
        ensures
            activate_post(*old(self), *final(self), name@, r),
    {
        let ghost before = *self;
        let ghost start_map = self.state.sink_enabled@;
        let sinks = sink_nodes(&self.graph);
        let profile = match self.config.profiles.get(name) {
            Some(p) => p,
            None => {
                return Err(DaemonError::ProfileNotFound { name: name.to_owned() });
            },
        };
        let ghost p = *profile;
        let ghost all_ids = node_ids(sinks@);
        proof {
            lemma_sink_ids(sinks@, self.graph);
        }
        let mut cmds: Vec<PwCommand> = Vec::new();
        let mut i: usize = 0;
        while i < sinks.len()
            invariant
                self.graph == before.graph,
                self.config == before.config,
                self.default_sink == before.default_sink,
                self.linked_sinks == before.linked_sinks,
                *profile == p,
                i <= sinks.len(),
                lists_sink_nodes(sinks@, self.graph),
                all_ids == node_ids(sinks@),
                all_ids.len() == sinks.len(),
                forall|j: int| 0 <= j < sinks.len() ==> #[trigger] all_ids[j] == sinks[j].id,
                cmds.len() == i,
                forall|j: int|
                    0 <= j < i ==> is_switch_command(
                        #[trigger] cmds[j],
                        sinks[j].name@,
                        profile_lists(p, sinks[j].name@),
                    ),
                forall|k: Seq<char>| #[trigger] self.state.sink_enabled@.contains_key(k) <==> (start_map.contains_key(k)
                    || seen_name(self.graph, all_ids.take(i as int), k)),
                forall|k: Seq<char>| #[trigger] self.state.sink_enabled@.contains_key(k) ==> self.state.sink_enabled@[k]
                    == if seen_name(self.graph, all_ids.take(i as int), k) {
                    profile_lists(p, k)
                } else {
                    start_map[k]
                },
            decreases sinks.len() - i,
        {
            let n = sinks[i];
            let enabled = list_contains(&profile.enabled_sinks, n.name.as_str());
            let ghost prev = self.state.sink_enabled@;
            self.state.set_sink_enabled(n.name.as_str(), enabled);
            let cmd = if enabled {
                PwCommand::LinkSink { name: n.name.clone() }
            } else {
                PwCommand::UnlinkSink { name: n.name.clone() }
            };
            cmds.push(cmd);
            proof {
                let old_ids = all_ids.take(i as int);
                let ids = all_ids.take(i + 1);
                assert(ids =~= old_ids.push(n.id));
                let nm = n.name@;
                assert(self.graph.node_map()[n.id] == *n);
                assert forall|k: Seq<char>| seen_name(self.graph, ids, k) <==> (seen_name(self.graph, old_ids, k) || k == nm) by {
                    if seen_name(self.graph, ids, k) {
                        let j: int = choose|j: int| 0 <= j < ids.len() && #[trigger] self.graph.node_map()[ids[j]].name@ == k;
                        if j < old_ids.len() {
                            assert(old_ids[j] == ids[j]);
                        }
                    }
                    if seen_name(self.graph, old_ids, k) {
                        let j: int = choose|j: int| 0 <= j < old_ids.len() && #[trigger] self.graph.node_map()[old_ids[j]].name@ == k;
                        assert(ids[j] == old_ids[j]);
                    }
                    if k == nm {
                        assert(self.graph.node_map()[ids[old_ids.len() as int]].name@ == k);
                    }
                }
                assert forall|k: Seq<char>| #[trigger] self.state.sink_enabled@.contains_key(k) implies self.state.sink_enabled@[k]
                    == if seen_name(self.graph, ids, k) {
                    profile_lists(p, k)
                } else {
                    start_map[k]
                } by {
                    if k != nm {
                        assert(prev.contains_key(k));
                    }
                }
                assert forall|k: Seq<char>| #[trigger] self.state.sink_enabled@.contains_key(k) <==> (start_map.contains_key(k)
                    || seen_name(self.graph, ids, k)) by {
                    if k != nm {
                        assert(self.state.sink_enabled@.contains_key(k) <==> prev.contains_key(k));
                    }
                }
            }
            i = i + 1;
        }
        self.config.active_profile = Some(name.to_owned());
        proof {
            assert(all_ids.take(sinks.len() as int) =~= all_ids);
            let ids = all_ids;
            assert forall|k: Seq<char>| seen_name(self.graph, ids, k) <==> has_sink_named(self.graph, k) by {
                if seen_name(self.graph, ids, k) {
                    let j: int = choose|j: int| 0 <= j < ids.len() && #[trigger] self.graph.node_map()[ids[j]].name@ == k;
                    assert(is_sink_node(self.graph, ids[j]));
                }
                if has_sink_named(self.graph, k) {
                    let id: u32 = choose|id: u32| #[trigger] is_sink_node(self.graph, id) && self.graph.node_map()[id].name@ == k;
                    assert(ids.contains(id));
                    let j: int = choose|j: int| 0 <= j < ids.len() && ids[j] == id;
                    assert(self.graph.node_map()[ids[j]].name@ == k);
                }
            }
            assert(self.state.sink_enabled@ =~= applied_profile(start_map, before.graph, p));
            assert forall|j: int| 0 <= j < ids.len() implies is_switch_command(
                #[trigger] cmds[j],
                before.graph.node_map()[ids[j]].name@,
                profile_lists(p, before.graph.node_map()[ids[j]].name@),
            ) by {
                assert(before.graph.node_map()[ids[j]] == *sinks[j]);
            }
        }
        Ok(cmds)
    }

    /// Saves the current switches as the profile `name`, replacing any
    /// profile of that name.
    pub fn save_profile(&mut self, name: String)
        ensures
            save_profile_post(*old(self), *final(self), name@),
    {
        let enabled_sinks = self.state.sink_enabled.keys_set_true();
        let p = Profile { description: None, enabled_sinks };
        proof {
            assert forall|k: Seq<char>| #[trigger] self.state.enabled(k) implies profile_lists(p, k) by {
                let i: int = choose|i: int| 0 <= i < p.enabled_sinks.len() && p.enabled_sinks[i]@ == k;
                assert(p.enabled_sinks[i]@ == k);
            }
        }
        let ghost k = name@;
        self.config.profiles.insert(name, p);
        assert(self.config.profiles@.insert(k, self.config.profiles@[k]) =~= self.config.profiles@);
    }

    /// Forgets the profile `name`.
    pub fn delete_profile(&mut self, name: &str) -> (r: Result<(), DaemonError>)
        ensures
            delete_post(*old(self), *final(self), name@, r),
    {
        match self.config.profiles.remove(name) {
            Some(_) => Ok(()),
            None => Err(DaemonError::ProfileNotFound { name: name.to_owned() }),
        }
    }

    /// The name of the current default sink, empty where none is known.
    pub fn get_default_sink(&self) -> (r: String)
        ensures
            r@ == match self.default_sink {
                Some(d) => d@,
                None => Seq::<char>::empty(),
            },
    {
        match &self.default_sink {
            Some(d) => d.clone(),
            None => String::new(),
        }
    }

    /// The id of a node called `name`, for a volume request.
    pub fn sink_node_id(&self, name: &str) -> (r: Result<u32, DaemonError>)
        ensures
            match r {
                Ok(id) => is_node_named(self.graph, id, name@),
                Err(DaemonError::SinkNotFound { name: n }) => n@ == name@ && !has_node_named(self.graph, name@),
                Err(_) => false,
            },
    {
        match self.graph.node_by_name(name) {
            Some(n) => Ok(n.id),
            None => {
                proof {
                    assert forall|id: u32| !is_node_named(self.graph, id, name@) by {
                        if self.graph.node_map().contains_key(id) {
                            assert(self.graph.node_map()[id].name@ != name@);
                        }
                    }
                }
                Err(DaemonError::SinkNotFound { name: name.to_owned() })
            },
        }
    }

    /// The links that keep the enabled sinks routed from `new_default`: one
    /// `LinkSink` per audio sink of the graph that is switched on and is not
    /// `new_default` itself.
    fn relink_commands(&self, new_default: &str) -> (r: Vec<PwCommand>)
        ensures
            relinks(self.graph, self.state, new_default@, r@),
    {
        let sinks = sink_nodes(&self.graph);
        let mut r: Vec<PwCommand> = Vec::new();
        let ghost mut at: Seq<int> = Seq::empty();
        let mut i: usize = 0;
        while i < sinks.len()
            invariant
                i <= sinks.len(),
                lists_sink_nodes(sinks@, self.graph),
                at.len() == r.len(),
                forall|j: int| 0 <= j < r.len() ==> 0 <= #[trigger] at[j] < i,
                forall|j: int| 0 <= j < r.len() ==> wants_relink(self.graph, self.state, new_default@, #[trigger] sinks@[at[j]].id),
                forall|j: int| 0 <= j < r.len() ==> is_switch_command(#[trigger] r[j], sinks@[at[j]].name@, true),
                forall|a: int, b: int| 0 <= a < b < r.len() ==> at[a] < at[b],
                forall|a: int| 0 <= a < i && wants_relink(self.graph, self.state, new_default@, #[trigger] sinks@[a].id)
                    ==> exists|j: int| 0 <= j < r.len() && at[j] == a,
            decreases sinks.len() - i,
        {
            let n = sinks[i];
            assert(self.graph.node_map()[n.id] == *n);
            if self.state.is_sink_enabled(n.name.as_str()) && !str_eq(n.name.as_str(), new_default) {
                r.push(PwCommand::LinkSink { name: n.name.clone() });
                proof {
                    let old_at = at;
                    at = at.push(i as int);
                    assert forall|a: int| 0 <= a < i + 1 && wants_relink(self.graph, self.state, new_default@, #[trigger] sinks@[a].id)
                        implies exists|j: int| 0 <= j < r.len() && at[j] == a by {
                        if a == i {
                            assert(at[r.len() - 1] == a);
                        } else {
                            let j: int = choose|j: int| 0 <= j < old_at.len() && old_at[j] == a;
                            assert(at[j] == a);
                        }
                    }
                }
            }
            i = i + 1;
        }
        proof {
            let ids = Seq::new(r.len() as nat, |j: int| sinks@[at[j]].id);
            assert forall|j: int| 0 <= j < ids.len() implies wants_relink(self.graph, self.state, new_default@, #[trigger] ids[j]) by {
                assert(ids[j] == sinks@[at[j]].id);
            }
            assert forall|id: u32| #[trigger] wants_relink(self.graph, self.state, new_default@, id) implies ids.contains(id) by {
                let a: int = choose|a: int| 0 <= a < sinks.len() && sinks@[a].id == id;
                let j: int = choose|j: int| 0 <= j < r.len() && at[j] == a;
                assert(ids[j] == id);
            }
            assert forall|x: int, y: int| 0 <= x < ids.len() && 0 <= y < ids.len() && x != y implies ids[x] != ids[y] by {
                if x < y {
                    assert(at[x] < at[y]);
                } else {
                    assert(at[y] < at[x]);
                }
            }
            assert forall|j: int| 0 <= j < ids.len() implies is_switch_command(
                #[trigger] r@[j],
                self.graph.node_map()[ids[j]].name@,
                true,
            ) by {
                assert(self.graph.node_map()[sinks@[at[j]].id] == *sinks@[at[j]]);
            }
            assert(ids.no_duplicates());
        }
        r
    }

    /// Applies an event of the PipeWire thread and gives the signal to
    /// announce, if any, and the commands that keep the enabled sinks routed:
    /// a new sink that is switched on (or any new sink, where new sinks are
    /// linked automatically) is linked from the default sink, and a new
    /// default sink gets links to every enabled sink.
    pub fn handle_event(&mut self, event: PwEvent) -> (r: (Option<DaemonSignal>, Vec<PwCommand>))
        ensures
            final(self).state == old(self).state,
            final(self).config == old(self).config,
            final(self).linked_sinks == old(self).linked_sinks,
            !(event is DefaultChanged) ==> final(self).default_sink == old(self).default_sink,
            match event {
                PwEvent::NodeAdded(n) => r.0 is None && r.1@.len() == 0 && final(self).graph.node_map() == old(
                    self,
                ).graph.node_map().insert(n.id, n) && final(self).graph.port_map() == old(self).graph.port_map(),
                PwEvent::NodeRemoved(id) => r.0 is None && r.1@.len() == 0 && final(self).graph.node_map() == old(
                    self,
                ).graph.node_map().remove(id) && final(self).graph.port_map()
                    == crate::graph::ports_without_node(old(self).graph.port_map(), id),
                PwEvent::PortAdded(p) => r.0 is None && r.1@.len() == 0 && final(self).graph.port_map() == old(
                    self,
                ).graph.port_map().insert(p.id, p) && final(self).graph.node_map() == old(self).graph.node_map(),
                PwEvent::PortRemoved(id) => r.0 is None && r.1@.len() == 0 && final(self).graph.port_map() == old(
                    self,
                ).graph.port_map().remove(id) && final(self).graph.node_map() == old(self).graph.node_map(),
                PwEvent::SinkAdded { name, .. } => r.0 == Some(DaemonSignal::SinksChanged) && final(self).graph
                    == old(self).graph && new_sink_commands(*old(self), name@, r.1@),
                PwEvent::SinkRemoved { .. } => r.0 == Some(DaemonSignal::SinksChanged) && r.1@.len() == 0
                    && final(self).graph == old(self).graph,
                PwEvent::DefaultChanged { name } => r.0 == Some(DaemonSignal::DefaultChanged { new_default: name })
                    && final(self).graph == old(self).graph && (final(self).default_sink matches Some(d) && d@
                    == name@) && relinks(old(self).graph, old(self).state, name@, r.1@),
            },
    {
        match event {
            PwEvent::NodeAdded(n) => {
                self.graph.add_node(n);
                (None, Vec::new())
            },
            PwEvent::NodeRemoved(id) => {
                self.graph.remove_node(id);
                (None, Vec::new())
            },
            PwEvent::PortAdded(p) => {
                self.graph.add_port(p);
                (None, Vec::new())
            },
            PwEvent::PortRemoved(id) => {
                self.graph.remove_port(id);
                (None, Vec::new())
            },
            PwEvent::SinkAdded { name, .. } => {
                let mut cmds: Vec<PwCommand> = Vec::new();
                let secondary = match &self.default_sink {
                    Some(d) => !str_eq(d.as_str(), name.as_str()),
                    None => false,
                };
                if secondary && (self.state.is_sink_enabled(name.as_str()) || self.config.auto_link_new) {
                    cmds.push(PwCommand::LinkSink { name });
                }
                (Some(DaemonSignal::SinksChanged), cmds)
            },
            PwEvent::SinkRemoved { .. } => (Some(DaemonSignal::SinksChanged), Vec::new()),
            PwEvent::DefaultChanged { name } => {
                let cmds = self.relink_commands(name.as_str());
                self.default_sink = Some(name.clone());
                (Some(DaemonSignal::DefaultChanged { new_default: name }), cmds)
            },
        }
    }
}

/// Saving the switches as a profile and then switching to that profile
/// leaves every switch reading as it did before.
pub proof fn law_profile_round_trip(
    a: PatchwireInterface,
    b: PatchwireInterface,
    c: PatchwireInterface,
    name: Seq<char>,
    r: Result<Vec<PwCommand>, DaemonError>,
    k: Seq<char>,
)
    requires
        save_profile_post(a, b, name),
        activate_post(b, c, name, r),
    ensures
        r is Ok,
        c.state.enabled(k) == a.state.enabled(k),
{
    let p = b.config.profiles@[name];
    assert(saved_from(p, a.state));
    if r is Err {
        assert(b.config.profiles@.contains_key(name));
    }
    if has_sink_named(a.graph, k) {
        if a.state.enabled(k) {
            assert(profile_lists(p, k));
        }
        if profile_lists(p, k) {
            let i: int = choose|i: int| 0 <= i < p.enabled_sinks.len() && #[trigger] p.enabled_sinks[i]@ == k;
            assert(a.state.enabled(p.enabled_sinks[i]@));
        }
    }
}

/// A deleted profile cannot be switched to: the request is refused and
/// nothing changes.
pub proof fn law_deleted_profile_refused(
    a: PatchwireInterface,
    b: PatchwireInterface,
    c: PatchwireInterface,
    name: Seq<char>,
    r1: Result<(), DaemonError>,
    r2: Result<Vec<PwCommand>, DaemonError>,
)
    requires
        delete_post(a, b, name, r1),
        activate_post(b, c, name, r2),
    ensures
        r2 matches Err(DaemonError::ProfileNotFound { name: n }) && n@ == name,
        c == b,
{
}

/// After switching to a profile, a sink of the graph is on exactly where the
/// profile lists it.
pub proof fn law_profile_applied(
    a: PatchwireInterface,
    b: PatchwireInterface,
    name: Seq<char>,
    cmds: Vec<PwCommand>,
    k: Seq<char>,
)
    requires
        activate_post(a, b, name, Ok(cmds)),
        has_sink_named(a.graph, k),
    ensures
        b.state.enabled(k) == profile_lists(a.config.profiles@[name], k),
{
}

/// Switching to the same profile twice leaves the switches as switching once
/// did.
pub proof fn law_profile_idempotent(before: Map<Seq<char>, bool>, g: Graph, p: Profile)
    ensures
        applied_profile(applied_profile(before, g, p), g, p) == applied_profile(before, g, p),
{
    assert(applied_profile(applied_profile(before, g, p), g, p) =~= applied_profile(before, g, p));
}

/// Saving the switches as profile `name` and switching to it later, after
/// any steps that leave that profile as it was saved (switches toggled,
/// devices come and gone, other profiles saved), turns every sink then in the
/// graph back to how it was switched when the profile was saved.
pub proof fn law_profile_restores_later(
    a: PatchwireInterface,
    b: PatchwireInterface,
    c: PatchwireInterface,
    d: PatchwireInterface,
    name: Seq<char>,
    r: Result<Vec<PwCommand>, DaemonError>,
    k: Seq<char>,
)
    requires
        save_profile_post(a, b, name),
        c.config.profiles@.contains_key(name),
        c.config.profiles@[name] == b.config.profiles@[name],
        activate_post(c, d, name, r),
        has_sink_named(c.graph, k),
    ensures
        r is Ok,
        d.state.enabled(k) == a.state.enabled(k),
{
    let p = b.config.profiles@[name];
    assert(saved_from(p, a.state));
    if a.state.enabled(k) {
        assert(profile_lists(p, k));
    }
    if profile_lists(p, k) {
        let i: int = choose|i: int| 0 <= i < p.enabled_sinks.len() && #[trigger] p.enabled_sinks[i]@ == k;
        assert(a.state.enabled(p.enabled_sinks[i]@));
    }
}

/// Each listed sink is an audio sink of the graph, reported under its own
/// name and description; it is marked default exactly when its name is the
/// default sink's name, linked exactly when its links are live, and enabled
/// exactly when its switch is on. Every audio sink of the graph is listed.
pub proof fn law_sink_listing(p: PatchwireInterface, r: Seq<SinkInfo>)
    requires
        sink_listing(p, r),
    ensures
        forall|i: int|
            0 <= i < r.len() ==> {
                &&& #[trigger] r[i].is_default == (p.default_sink matches Some(d) && d@ == r[i].name@)
                &&& r[i].is_linked == p.linked_sinks@.contains_key(r[i].name@)
                &&& r[i].is_enabled == p.state.enabled(r[i].name@)
                &&& exists|id: u32|
                    is_sink_node(p.graph, id) && #[trigger] p.graph.node_map()[id].name@ == r[i].name@
                        && p.graph.node_map()[id].description@ == r[i].description@
            },
        forall|id: u32|
            #[trigger] is_sink_node(p.graph, id) ==> exists|i: int|
                0 <= i < r.len() && r[i].name@ == p.graph.node_map()[id].name@,
{
    let ids: Seq<u32> = choose|ids: Seq<u32>|
        {
            &&& enumerates_sinks(p.graph, ids)
            &&& ids.len() == r.len()
            &&& forall|i: int|
                0 <= i < ids.len() ==> describes_sink(
                    #[trigger] r[i],
                    p.graph.node_map()[ids[i]],
                    p.state,
                    p.default_sink,
                    p.linked_sinks@,
                )
        };
    assert forall|i: int| 0 <= i < r.len() implies {
        &&& #[trigger] r[i].is_default == (p.default_sink matches Some(d) && d@ == r[i].name@)
        &&& r[i].is_linked == p.linked_sinks@.contains_key(r[i].name@)
        &&& r[i].is_enabled == p.state.enabled(r[i].name@)
        &&& exists|id: u32|
            is_sink_node(p.graph, id) && #[trigger] p.graph.node_map()[id].name@ == r[i].name@
                && p.graph.node_map()[id].description@ == r[i].description@
    } by {
        assert(describes_sink(r[i], p.graph.node_map()[ids[i]], p.state, p.default_sink, p.linked_sinks@));
        assert(is_sink_node(p.graph, ids[i]));
    }
    assert forall|id: u32| #[trigger] is_sink_node(p.graph, id) implies exists|i: int|
        0 <= i < r.len() && r[i].name@ == p.graph.node_map()[id].name@ by {
        assert(ids.contains(id));
        let i: int = choose|i: int| 0 <= i < ids.len() && ids[i] == id;
        assert(describes_sink(r[i], p.graph.node_map()[ids[i]], p.state, p.default_sink, p.linked_sinks@));
    }
}

/// Switching to a profile gives one command for each audio sink of the
/// graph, and each command carries that sink's own name: a link where the
/// profile lists the sink, an unlink where it does not.
pub proof fn law_profile_commands(a: PatchwireInterface, b: PatchwireInterface, name: Seq<char>, cmds: Vec<PwCommand>)
    requires
        activate_post(a, b, name, Ok(cmds)),
    ensures
        exists|ids: Seq<u32>|
            {
                &&& enumerates_sinks(a.graph, ids)
                &&& ids.len() == cmds.len()
                &&& forall|i: int|
                    0 <= i < ids.len() ==> {
                        ||| (#[trigger] cmds@[i] matches PwCommand::LinkSink { name: n } && n@
                            == a.graph.node_map()[ids[i]].name@ && profile_lists(
                            a.config.profiles@[name],
                            n@,
                        ))
                        ||| (cmds@[i] matches PwCommand::UnlinkSink { name: n } && n@
                            == a.graph.node_map()[ids[i]].name@ && !profile_lists(
                            a.config.profiles@[name],
                            n@,
                        ))
                    }
            },
{
    let p = a.config.profiles@[name];
    let ids: Seq<u32> = choose|ids: Seq<u32>|
        {
            &&& enumerates_sinks(a.graph, ids)
            &&& ids.len() == cmds.len()
            &&& forall|i: int|
                0 <= i < ids.len() ==> is_switch_command(
                    #[trigger] cmds[i],
                    a.graph.node_map()[ids[i]].name@,
                    profile_lists(p, a.graph.node_map()[ids[i]].name@),
                )
        };
    assert forall|i: int| 0 <= i < ids.len() implies {
        ||| (#[trigger] cmds@[i] matches PwCommand::LinkSink { name: n } && n@ == a.graph.node_map()[ids[i]].name@
            && profile_lists(p, n@))
        ||| (cmds@[i] matches PwCommand::UnlinkSink { name: n } && n@ == a.graph.node_map()[ids[i]].name@
            && !profile_lists(p, n@))
    } by {
        assert(is_switch_command(cmds[i], a.graph.node_map()[ids[i]].name@, profile_lists(p, a.graph.node_map()[ids[i]].name@)));
    }
}

} // verus!
