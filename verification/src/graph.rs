use std::collections::HashMap;
use vstd::prelude::*;
use vstd::std_specs::iter::IteratorSpec;

use crate::text::str_eq;

verus! {

broadcast use vstd::std_specs::hash::group_hash_axioms;

/// A node of the audio graph.
#[derive(Debug, Clone)]
pub struct NodeInfo {
    pub id: u32,
    /// `node.name`: the stable identifier.
    pub name: String,
    /// `node.description`: the human readable name.
    pub description: String,
    /// `media.class`, e.g. `Audio/Sink`, `Audio/Source`.
    pub media_class: String,
}

/// A port of the audio graph.
#[derive(Debug, Clone)]
pub struct PortInfo {
    pub id: u32,
    /// The node that owns this port.
    pub node_id: u32,
    /// `port.name`, e.g. `monitor_FL`, `playback_FR`.
    pub name: String,
    pub direction: PortDirection,
}

#[derive(Debug, Clone, Copy, PartialEq, Eq, Structural)]
pub enum PortDirection {
    Input,
    Output,
    Unknown,
}

/// Whether `p` belongs to node `node_id` and, where a direction is given,
/// points that way.
pub open spec fn port_matches(p: PortInfo, node_id: u32, direction: Option<PortDirection>) -> bool {
    &&& p.node_id == node_id
    &&& match direction {
        Some(d) => p.direction == d,
        None => true,
    }
}

/// `r` lists the values of `m`, each once, where every value is stored under
/// its own id.
pub open spec fn lists_nodes(r: Seq<&NodeInfo>, m: Map<u32, NodeInfo>) -> bool {
    &&& forall|i: int| 0 <= i < r.len() ==> m.contains_key(#[trigger] r[i].id) && m[r[i].id] == *r[i]
    &&& forall|k: u32| #[trigger] m.contains_key(k) ==> exists|i: int| 0 <= i < r.len() && r[i].id == k
    &&& forall|i: int, j: int| 0 <= i < r.len() && 0 <= j < r.len() && i != j ==> r[i].id != r[j].id
}

/// `r` lists the values of `m` for which `keep` holds, each once.
pub open spec fn lists_ports_where(
    r: Seq<&PortInfo>,
    m: Map<u32, PortInfo>,
    keep: spec_fn(PortInfo) -> bool,
) -> bool {
    &&& forall|i: int|
        0 <= i < r.len() ==> m.contains_key(#[trigger] r[i].id) && m[r[i].id] == *r[i] && keep(*r[i])
    &&& forall|k: u32| #[trigger] m.contains_key(k) && keep(m[k]) ==> exists|i: int| 0 <= i < r.len() && r[i].id == k
    &&& forall|i: int, j: int| 0 <= i < r.len() && 0 <= j < r.len() && i != j ==> r[i].id != r[j].id
}

/// Every node of `m` is stored under its own id.
pub open spec fn nodes_keyed(m: Map<u32, NodeInfo>) -> bool {
    forall|k: u32| #[trigger] m.contains_key(k) ==> m[k].id == k
}

/// Every port of `m` is stored under its own id.
pub open spec fn ports_keyed(m: Map<u32, PortInfo>) -> bool {
    forall|k: u32| #[trigger] m.contains_key(k) ==> m[k].id == k
}

/// The nodes and ports known so far.
#[derive(Debug)]
pub struct Graph {
    nodes: HashMap<u32, NodeInfo>,
    ports: HashMap<u32, PortInfo>,
}

impl Graph {
    /// The nodes, by id.
    pub closed spec fn node_map(&self) -> Map<u32, NodeInfo> {
        self.nodes@
    }

    /// The ports, by id.
    pub closed spec fn port_map(&self) -> Map<u32, PortInfo> {
        self.ports@
    }

    /// Every node and every port is stored under its own id.
    #[verifier::type_invariant]
    spec fn wf(self) -> bool {
        &&& nodes_keyed(self.nodes@)
        &&& ports_keyed(self.ports@)
    }

    /// An empty graph.
    pub fn new() -> (g: Self)
        ensures
            g.node_map() == Map::<u32, NodeInfo>::empty(),
            g.port_map() == Map::<u32, PortInfo>::empty(),
    {
        Graph { nodes: HashMap::new(), ports: HashMap::new() }
    }

    /// Stores `info` under its id, replacing any node stored there.
    pub fn add_node(&mut self, info: NodeInfo)
        ensures
            final(self).node_map() == old(self).node_map().insert(info.id, info),
            final(self).port_map() == old(self).port_map(),
    {
        proof {
            use_type_invariant(&*self);
        }
        let id: u32 = info.id;
        let mut nodes: HashMap<u32, NodeInfo> = HashMap::new();
        assert(nodes@ =~= Map::<u32, NodeInfo>::empty());
        std::mem::swap(&mut nodes, &mut self.nodes);
        nodes.insert(id, info);
        proof {
            assert forall|k: u32| #[trigger] nodes@.contains_key(k) implies nodes@[k].id == k by {
                if k != id {
                    assert(old(self).node_map().contains_key(k));
                }
            }
        }
        self.nodes = nodes;
    }

    /// Stores `info` under its id, replacing any port stored there.
    pub fn add_port(&mut self, info: PortInfo)
        ensures
            final(self).port_map() == old(self).port_map().insert(info.id, info),
            final(self).node_map() == old(self).node_map(),
    {
        proof {
            use_type_invariant(&*self);
        }
        let id: u32 = info.id;
        let mut ports: HashMap<u32, PortInfo> = HashMap::new();
        assert(ports@ =~= Map::<u32, PortInfo>::empty());
        std::mem::swap(&mut ports, &mut self.ports);
        ports.insert(id, info);
        proof {
            assert forall|k: u32| #[trigger] ports@.contains_key(k) implies ports@[k].id == k by {
                if k != id {
                    assert(old(self).port_map().contains_key(k));
                }
            }
        }
        self.ports = ports;
    }

    /// Forgets the port stored under `id`, if any.
    pub fn remove_port(&mut self, id: u32)
        ensures
            final(self).port_map() == old(self).port_map().remove(id),
            final(self).node_map() == old(self).node_map(),
    {
        proof {
            use_type_invariant(&*self);
        }
        let mut ports: HashMap<u32, PortInfo> = HashMap::new();
        assert(ports@ =~= Map::<u32, PortInfo>::empty());
        std::mem::swap(&mut ports, &mut self.ports);
        ports.remove(&id);
        proof {
            assert forall|k: u32| #[trigger] ports@.contains_key(k) implies ports@[k].id == k by {
                assert(old(self).port_map().contains_key(k));
            }
        }
        self.ports = ports;
    }

    /// Every node, each once, in no particular order.
    pub fn node_list(&self) -> (r: Vec<&NodeInfo>)
        ensures
            r.len() == self.node_map().len(),
            lists_nodes(r@, self.node_map()),
    {
        proof {
            use_type_invariant(self);
        }
        let mut r: Vec<&NodeInfo> = Vec::new();
        let iter = self.nodes.iter();
        let ghost all = iter.remaining();
        assert(all.no_duplicates());
        for pair in it: iter
            invariant
                self.wf(),
                it.seq() == all,
                all.len() == self.nodes@.len(),
                r.len() == it.index(),
                forall|j: int| 0 <= j < r.len() ==> r[j] == all[j].1,
        {
            r.push(pair.1);
        }
        proof {
            let m = self.nodes@;
            assert forall|i: int| 0 <= i < r.len() implies m.contains_key(#[trigger] r[i].id) && m[r[i].id]
                == *r[i] && *all[i].0 == r[i].id by {
                assert(m.contains_key(*all[i].0) && m[*all[i].0] == *all[i].1);
                assert(self.node_map().contains_key(*all[i].0));
            }
            assert forall|k: u32| #[trigger] m.contains_key(k) implies exists|i: int|
                0 <= i < r.len() && r[i].id == k by {
                assert(all.contains((&k, &m[k])));
                let i: int = choose|i: int| 0 <= i < all.len() && all[i] == (&k, &m[k]);
                assert(self.node_map().contains_key(k));
                assert(r[i].id == k);
            }
            assert forall|i: int, j: int| 0 <= i < r.len() && 0 <= j < r.len() && i != j implies r[i].id
                != r[j].id by {
                if r[i].id == r[j].id {
                    assert(*all[i].0 == *all[j].0);
                    assert(m[*all[i].0] == *all[i].1);
                    assert(m[*all[j].0] == *all[j].1);
                    assert(all[i] == all[j]);
                }
            }
        }
        r
    }

    /// Every port, each once, in no particular order.
    pub fn port_list(&self) -> (r: Vec<&PortInfo>)
        ensures
            r.len() == self.port_map().len(),
            lists_ports_where(r@, self.port_map(), |p: PortInfo| true),
    {
        proof {
            use_type_invariant(self);
        }
        let mut r: Vec<&PortInfo> = Vec::new();
        let iter = self.ports.iter();
        let ghost all = iter.remaining();
        assert(all.no_duplicates());
        for pair in it: iter
            invariant
                self.wf(),
                it.seq() == all,
                all.len() == self.ports@.len(),
                r.len() == it.index(),
                forall|j: int| 0 <= j < r.len() ==> r[j] == all[j].1,
        {
            r.push(pair.1);
        }
        proof {
            let m = self.ports@;
            assert forall|i: int| 0 <= i < r.len() implies m.contains_key(#[trigger] r[i].id) && m[r[i].id]
                == *r[i] && *all[i].0 == r[i].id by {
                assert(m.contains_key(*all[i].0) && m[*all[i].0] == *all[i].1);
                assert(self.port_map().contains_key(*all[i].0));
            }
            assert forall|k: u32| #[trigger] m.contains_key(k) && true implies exists|i: int|
                0 <= i < r.len() && r[i].id == k by {
                assert(all.contains((&k, &m[k])));
                let i: int = choose|i: int| 0 <= i < all.len() && all[i] == (&k, &m[k]);
                assert(self.port_map().contains_key(k));
                assert(r[i].id == k);
            }
            assert forall|i: int, j: int| 0 <= i < r.len() && 0 <= j < r.len() && i != j implies r[i].id
                != r[j].id by {
                if r[i].id == r[j].id {
                    assert(*all[i].0 == *all[j].0);
                    assert(m[*all[i].0] == *all[i].1);
                    assert(m[*all[j].0] == *all[j].1);
                    assert(all[i] == all[j]);
                }
            }
        }
        r
    }

    /// A node named `name`, if there is one (which one, where several share
    /// the name, is not fixed).
    pub fn node_by_name(&self, name: &str) -> (r: Option<&NodeInfo>)
        ensures
            match r {
                Some(n) => self.node_map().contains_key(n.id) && self.node_map()[n.id] == *n && n.name@ == name@,
                None => forall|k: u32| #[trigger] self.node_map().contains_key(k) ==> self.node_map()[k].name@ != name@,
            },
    {
        proof {
            use_type_invariant(self);
        }
        let nodes = self.node_list();
        let mut i: usize = 0;
        while i < nodes.len()
            invariant
                i <= nodes.len(),
                lists_nodes(nodes@, self.node_map()),
                forall|j: int| 0 <= j < i ==> (#[trigger] nodes[j]).name@ != name@,
            decreases nodes.len() - i,
        {
            if str_eq(nodes[i].name.as_str(), name) {
                return Some(nodes[i]);
            }
            i = i + 1;
        }
        proof {
            assert forall|k: u32| #[trigger] self.node_map().contains_key(k) implies self.node_map()[k].name@ != name@ by {
                let j: int = choose|j: int| 0 <= j < nodes.len() && nodes[j].id == k;
                assert(self.node_map()[nodes[j].id] == *nodes[j]);
            }
        }
        None
    }

    /// The ports of node `node_id`, those that point in `direction` where one
    /// is given, each once, in no particular order.
    pub fn ports_for_node(&self, node_id: u32, direction: Option<&PortDirection>) -> (r: Vec<&PortInfo>)
        ensures
            lists_ports_where(r@, self.port_map(), |p: PortInfo| port_matches(p, node_id, opt_direction(direction))),
    {
        proof {
            use_type_invariant(self);
        }
        let ports = self.port_list();
        let ghost keep = |p: PortInfo| port_matches(p, node_id, opt_direction(direction));
        let mut r: Vec<&PortInfo> = Vec::new();
        let ghost mut at: Seq<int> = Seq::empty();
        let mut i: usize = 0;
        while i < ports.len()
            invariant
                i <= ports.len(),
                lists_ports_where(ports@, self.port_map(), |p: PortInfo| true),
                keep == (|p: PortInfo| port_matches(p, node_id, opt_direction(direction))),
                at.len() == r.len(),
                forall|j: int| 0 <= j < r.len() ==> 0 <= #[trigger] at[j] < i && r[j] == ports[at[j]] && keep(*r[j]),
                forall|a: int, b: int| 0 <= a < b < r.len() ==> at[a] < at[b],
                forall|j: int| 0 <= j < i && keep(*(#[trigger] ports[j])) ==> exists|a: int| 0 <= a < r.len() && at[a] == j,
            decreases ports.len() - i,
        {
            let p = ports[i];
            let wanted = p.node_id == node_id && match direction {
                Some(d) => p.direction == *d,
                None => true,
            };
            if wanted {
                r.push(p);
                proof {
                    let old_at = at;
                    at = at.push(i as int);
                    assert forall|j: int| 0 <= j < i + 1 && keep(*(#[trigger] ports[j])) implies exists|a: int|
                        0 <= a < r.len() && at[a] == j by {
                        if j == i {
                            assert(at[r.len() - 1] == j);
                        } else {
                            let a: int = choose|a: int| 0 <= a < old_at.len() && old_at[a] == j;
                            assert(at[a] == j);
                        }
                    }
                }
            }
            i = i + 1;
        }
        proof {
            let m = self.port_map();
            assert forall|j: int| 0 <= j < r.len() implies m.contains_key(#[trigger] r[j].id) && m[r[j].id] == *r[j]
                && keep(*r[j]) by {
                assert(r[j] == ports[at[j]]);
            }
            assert forall|k: u32| #[trigger] m.contains_key(k) && keep(m[k]) implies exists|a: int|
                0 <= a < r.len() && r[a].id == k by {
                let j: int = choose|j: int| 0 <= j < ports.len() && ports[j].id == k;
                assert(m[ports[j].id] == *ports[j]);
                assert(keep(*ports[j]));
                let a: int = choose|a: int| 0 <= a < r.len() && at[a] == j;
                assert(r[a].id == k);
            }
            assert forall|a: int, b: int| 0 <= a < r.len() && 0 <= b < r.len() && a != b implies r[a].id != r[b].id by {
                if a < b {
                    assert(at[a] < at[b]);
                } else {
                    assert(at[b] < at[a]);
                }
            }
        }
        r
    }

    /// A port of node `node_id` named `name`, if there is one (which one,
    /// where several share the name, is not fixed).
    pub fn port_by_name(&self, node_id: u32, name: &str) -> (r: Option<&PortInfo>)
        ensures
            match r {
                Some(p) => self.port_map().contains_key(p.id) && self.port_map()[p.id] == *p && p.node_id == node_id
                    && p.name@ == name@,
                None => forall|k: u32| #[trigger] self.port_map().contains_key(k) ==> !(self.port_map()[k].node_id
                    == node_id && self.port_map()[k].name@ == name@),
            },
    {
        proof {
            use_type_invariant(self);
        }
        let ports = self.port_list();
        let mut i: usize = 0;
        while i < ports.len()
            invariant
                i <= ports.len(),
                lists_ports_where(ports@, self.port_map(), |p: PortInfo| true),
                forall|j: int| 0 <= j < i ==> !((#[trigger] ports[j]).node_id == node_id && ports[j].name@ == name@),
            decreases ports.len() - i,
        {
            if ports[i].node_id == node_id && str_eq(ports[i].name.as_str(), name) {
                return Some(ports[i]);
            }
            i = i + 1;
        }
        proof {
            assert forall|k: u32| #[trigger] self.port_map().contains_key(k) implies !(self.port_map()[k].node_id
                == node_id && self.port_map()[k].name@ == name@) by {
                let j: int = choose|j: int| 0 <= j < ports.len() && ports[j].id == k;
                assert(self.port_map()[ports[j].id] == *ports[j]);
            }
        }
        None
    }

    /// Forgets the node stored under `id` together with every port that
    /// belongs to it.
    pub fn remove_node(&mut self, id: u32)
        ensures
            final(self).node_map() == old(self).node_map().remove(id),
            final(self).port_map() == ports_without_node(old(self).port_map(), id),
    {
        proof {
            use_type_invariant(&*self);
        }
        let mut doomed: Vec<u32> = Vec::new();
        {
            let owned = self.ports_for_node(id, None);
            let mut i: usize = 0;
            while i < owned.len()
                invariant
                    i <= owned.len(),
                    doomed.len() == i,
                    forall|j: int| 0 <= j < i ==> #[trigger] doomed[j] == owned[j].id,
                decreases owned.len() - i,
            {
                doomed.push(owned[i].id);
                i = i + 1;
            }
            proof {
                let m = self.port_map();
                assert forall|k: u32| m.contains_key(k) && m[k].node_id == id <==> doomed@.contains(k) by {
                    if m.contains_key(k) && m[k].node_id == id {
                        assert(port_matches(m[k], id, opt_direction(None)));
                        let a: int = choose|a: int| 0 <= a < owned.len() && owned[a].id == k;
                        assert(doomed[a] == k);
                    }
                    if doomed@.contains(k) {
                        let a: int = choose|a: int| 0 <= a < doomed.len() && doomed[a] == k;
                        assert(owned[a].id == k);
                        assert(port_matches(*owned[a], id, opt_direction(None)));
                    }
                }
            }
        }
        let mut nodes: HashMap<u32, NodeInfo> = HashMap::new();
        assert(nodes@ =~= Map::<u32, NodeInfo>::empty());
        std::mem::swap(&mut nodes, &mut self.nodes);
        let mut ports: HashMap<u32, PortInfo> = HashMap::new();
        assert(ports@ =~= Map::<u32, PortInfo>::empty());
        std::mem::swap(&mut ports, &mut self.ports);
        nodes.remove(&id);
        let ghost before = ports@;
        let mut i: usize = 0;
        while i < doomed.len()
            invariant
                i <= doomed.len(),
                forall|k: u32| before.contains_key(k) && before[k].node_id == id <==> doomed@.contains(k),
                forall|k: u32| #[trigger] ports@.contains_key(k) <==> before.contains_key(k) && !doomed@.take(i as int).contains(k),
                forall|k: u32| #[trigger] ports@.contains_key(k) ==> ports@[k] == before[k],
            decreases doomed.len() - i,
        {
            let k: u32 = doomed[i];
            let ghost prev = ports@;
            ports.remove(&k);
            proof {
                assert(ports@ == prev.remove(k));
                assert(doomed@.take(i + 1) == doomed@.take(i as int).push(k));
                assert forall|q: u32| #[trigger] ports@.contains_key(q) <==> before.contains_key(q)
                    && !doomed@.take(i + 1).contains(q) by {
                    assert(prev.contains_key(q) <==> before.contains_key(q) && !doomed@.take(i as int).contains(q));
                    assert(doomed@.take(i + 1)[i as int] == k);
                    if doomed@.take(i + 1).contains(q) && q != k {
                        let a: int = choose|a: int| 0 <= a < i + 1 && #[trigger] doomed@.take(i + 1)[a] == q;
                        assert(doomed@.take(i as int)[a] == q);
                    }
                    if doomed@.take(i as int).contains(q) {
                        let a: int = choose|a: int| 0 <= a < i && #[trigger] doomed@.take(i as int)[a] == q;
                        assert(doomed@.take(i + 1)[a] == q);
                    }
                }
            }
            i = i + 1;
        }
        proof {
            assert(doomed@.take(doomed.len() as int) == doomed@);
            assert(ports@ =~= ports_without_node(before, id));
            assert forall|k: u32| #[trigger] nodes@.contains_key(k) implies nodes@[k].id == k by {
                assert(old(self).node_map().contains_key(k));
            }
            assert forall|k: u32| #[trigger] ports@.contains_key(k) implies ports@[k].id == k by {
                assert(old(self).port_map().contains_key(k));
            }
        }
        self.nodes = nodes;
        self.ports = ports;
    }
}

impl Default for Graph {
    fn default() -> (g: Self)
        ensures
            g.node_map() == Map::<u32, NodeInfo>::empty(),
            g.port_map() == Map::<u32, PortInfo>::empty(),
    {
        Graph::new()
    }
}

/// The direction a port filter asks for.
pub open spec fn opt_direction(direction: Option<&PortDirection>) -> Option<PortDirection> {
    match direction {
        Some(d) => Some(*d),
        None => None,
    }
}

/// `m` without the ports that belong to node `node_id`.
pub open spec fn ports_without_node(m: Map<u32, PortInfo>, node_id: u32) -> Map<u32, PortInfo> {
    Map::new(|k: u32| m.contains_key(k) && m[k].node_id != node_id, |k: u32| m[k])
}

/// Adding a port that was not there and then removing it leaves the ports as
/// they were.
pub proof fn law_add_remove_port(before: Graph, mid: Graph, after: Graph, p: PortInfo)
    requires
        !before.port_map().contains_key(p.id),
        mid.port_map() == before.port_map().insert(p.id, p),
        after.port_map() == mid.port_map().remove(p.id),
    ensures
        after.port_map() == before.port_map(),
{
    assert(after.port_map() =~= before.port_map());
}

/// Once a node is removed, no port of it remains.
pub proof fn law_removed_node_has_no_ports(before: Graph, after: Graph, id: u32)
    requires
        after.port_map() == ports_without_node(before.port_map(), id),
    ensures
        forall|k: u32| #[trigger] after.port_map().contains_key(k) ==> after.port_map()[k].node_id != id,
        forall|k: u32| #[trigger] before.port_map().contains_key(k) && before.port_map()[k].node_id != id
            ==> after.port_map().contains_key(k) && after.port_map()[k] == before.port_map()[k],
{
}

/// A node just added is found under its id with its name.
pub proof fn law_added_node_found(before: Graph, after: Graph, n: NodeInfo)
    requires
        after.node_map() == before.node_map().insert(n.id, n),
    ensures
        after.node_map().contains_key(n.id),
        after.node_map()[n.id] == n,
        exists|k: u32| #[trigger] after.node_map().contains_key(k) && after.node_map()[k].name@ == n.name@,
{
    assert(after.node_map().contains_key(n.id) && after.node_map()[n.id].name@ == n.name@);
}

/// A registry object that goes away is forgotten both as a node (with its
/// ports) and as a port: afterwards nothing is stored under its id and no
/// port belongs to it.
pub proof fn law_global_removed(before: Graph, mid: Graph, after: Graph, id: u32)
    requires
        mid.node_map() == before.node_map().remove(id),
        mid.port_map() == ports_without_node(before.port_map(), id),
        after.port_map() == mid.port_map().remove(id),
        after.node_map() == mid.node_map(),
    ensures
        !after.node_map().contains_key(id),
        !after.port_map().contains_key(id),
        forall|k: u32| #[trigger] after.port_map().contains_key(k) ==> after.port_map()[k].node_id != id,
{
}

/// The ids of the ports `r`.
pub open spec fn port_ids(r: Seq<&PortInfo>) -> Seq<u32> {
    r.map_values(|p: &PortInfo| p.id)
}

/// A listing of ports, each once, has as many entries as distinct ids.
proof fn lemma_port_listing_len(r: Seq<&PortInfo>, m: Map<u32, PortInfo>, keep: spec_fn(PortInfo) -> bool)
    requires
        lists_ports_where(r, m, keep),
    ensures
        port_ids(r).to_set().finite(),
        port_ids(r).to_set().len() == r.len(),
        forall|k: u32| port_ids(r).to_set().contains(k) <==> (m.contains_key(k) && keep(m[k])),
{
    let ids = port_ids(r);
    assert forall|i: int, j: int| 0 <= i < ids.len() && 0 <= j < ids.len() && i != j implies ids[i] != ids[j] by {
        assert(ids[i] == r[i].id && ids[j] == r[j].id);
    }
    assert(ids.no_duplicates());
    ids.unique_seq_to_set();
    vstd::seq_lib::seq_to_set_is_finite(ids);
    assert forall|k: u32| ids.to_set().contains(k) <==> (m.contains_key(k) && keep(m[k])) by {
        if ids.to_set().contains(k) {
            let i: int = choose|i: int| 0 <= i < ids.len() && ids[i] == k;
            assert(ids[i] == r[i].id);
        }
        if m.contains_key(k) && keep(m[k]) {
            let i: int = choose|i: int| 0 <= i < r.len() && r[i].id == k;
            assert(ids[i] == k);
        }
    }
}

/// The ports of a node split by direction: the unfiltered listing holds
/// exactly the ports of the three filtered ones, which share none, and is as
/// long as the three together.
pub proof fn law_ports_partition(
    g: Graph,
    node_id: u32,
    all: Seq<&PortInfo>,
    inputs: Seq<&PortInfo>,
    outputs: Seq<&PortInfo>,
    unknown: Seq<&PortInfo>,
)
    requires
        lists_ports_where(all, g.port_map(), |p: PortInfo| port_matches(p, node_id, None)),
        lists_ports_where(inputs, g.port_map(), |p: PortInfo| port_matches(p, node_id, Some(PortDirection::Input))),
        lists_ports_where(outputs, g.port_map(), |p: PortInfo| port_matches(p, node_id, Some(PortDirection::Output))),
        lists_ports_where(unknown, g.port_map(), |p: PortInfo| port_matches(p, node_id, Some(PortDirection::Unknown))),
    ensures
        port_ids(all).to_set() == port_ids(inputs).to_set() + port_ids(outputs).to_set() + port_ids(unknown).to_set(),
        port_ids(inputs).to_set().disjoint(port_ids(outputs).to_set()),
        port_ids(inputs).to_set().disjoint(port_ids(unknown).to_set()),
        port_ids(outputs).to_set().disjoint(port_ids(unknown).to_set()),
        all.len() == inputs.len() + outputs.len() + unknown.len(),
{
    let m = g.port_map();
    lemma_port_listing_len(all, m, |p: PortInfo| port_matches(p, node_id, None));
    lemma_port_listing_len(inputs, m, |p: PortInfo| port_matches(p, node_id, Some(PortDirection::Input)));
    lemma_port_listing_len(outputs, m, |p: PortInfo| port_matches(p, node_id, Some(PortDirection::Output)));
    lemma_port_listing_len(unknown, m, |p: PortInfo| port_matches(p, node_id, Some(PortDirection::Unknown)));
    let a = port_ids(all).to_set();
    let i = port_ids(inputs).to_set();
    let o = port_ids(outputs).to_set();
    let u = port_ids(unknown).to_set();
    assert(a =~= i + o + u) by {
        assert forall|k: u32| a.contains(k) <==> (i + o + u).contains(k) by {
            if m.contains_key(k) {
                match m[k].direction {
                    PortDirection::Input => {},
                    PortDirection::Output => {},
                    PortDirection::Unknown => {},
                }
            }
        }
    }
    vstd::set_lib::lemma_set_disjoint_lens(i, o);
    vstd::set_lib::lemma_set_disjoint_lens(i + o, u);
}

} // verus!
