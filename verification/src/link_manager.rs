use vstd::prelude::*;

use crate::graph::Graph;
use crate::names::NameMap;

verus! {

broadcast use vstd::string::group_string_axioms;

/// One link to create: from an output port of one node to an input port of
/// another.
#[derive(Debug, Clone, Copy, PartialEq, Eq, Structural)]
pub struct LinkSpec {
    pub output_port: u32,
    pub input_port: u32,
    pub output_node: u32,
    pub input_node: u32,
}

/// Why the links between two sinks cannot be made.
#[derive(Debug)]
pub enum LinkError {
    /// No node carries the default sink's name.
    DefaultSinkNotFound { name: String },
    /// No node carries the target sink's name.
    TargetSinkNotFound { name: String },
    /// The default sink lacks this monitor port.
    SourcePortNotFound { port: String, node: String },
    /// The target sink lacks this playback port.
    DestPortNotFound { port: String, node: String },
}

/// Why a sink cannot be linked now.
#[derive(Debug)]
pub enum LinkRequestError {
    /// The default sink is not known yet.
    NoDefaultSink,
}

/// The monitor port of the default sink, for the left and the right channel.
pub open spec fn source_port_name(channel: int) -> Seq<char> {
    if channel == 0 {
        seq!['m', 'o', 'n', 'i', 't', 'o', 'r', '_', 'F', 'L']
    } else {
        seq!['m', 'o', 'n', 'i', 't', 'o', 'r', '_', 'F', 'R']
    }
}

/// The playback port of the target sink, for the left and the right channel.
pub open spec fn dest_port_name(channel: int) -> Seq<char> {
    if channel == 0 {
        seq!['p', 'l', 'a', 'y', 'b', 'a', 'c', 'k', '_', 'F', 'L']
    } else {
        seq!['p', 'l', 'a', 'y', 'b', 'a', 'c', 'k', '_', 'F', 'R']
    }
}

/// Some node of `g` is stored under `id` and carries `name`.
pub open spec fn is_node_named(g: Graph, id: u32, name: Seq<char>) -> bool {
    g.node_map().contains_key(id) && g.node_map()[id].name@ == name
}

/// Some node of `g` carries `name`.
pub open spec fn has_node_named(g: Graph, name: Seq<char>) -> bool {
    exists|id: u32| is_node_named(g, id, name)
}

/// Node `node_id` of `g` has a port called `name`, stored under `port`.
pub open spec fn is_port_of(g: Graph, port: u32, node_id: u32, name: Seq<char>) -> bool {
    g.port_map().contains_key(port) && g.port_map()[port].node_id == node_id && g.port_map()[port].name@ == name
}

/// Node `node_id` of `g` has a port called `name`.
pub open spec fn has_port(g: Graph, node_id: u32, name: Seq<char>) -> bool {
    exists|port: u32| is_port_of(g, port, node_id, name)
}

/// Every node called `name` has both ports of the given kind.
pub open spec fn all_named_have_ports(g: Graph, name: Seq<char>, source: bool) -> bool {
    forall|id: u32|
        #[trigger] is_node_named(g, id, name) ==> has_port(
            g,
            id,
            if source { source_port_name(0) } else { dest_port_name(0) },
        ) && has_port(g, id, if source { source_port_name(1) } else { dest_port_name(1) })
}

/// `l` links channel `channel` of node `d` to the same channel of node `t`.
pub open spec fn links_channel(g: Graph, l: LinkSpec, d: u32, t: u32, channel: int) -> bool {
    &&& l.output_node == d
    &&& l.input_node == t
    &&& is_port_of(g, l.output_port, d, source_port_name(channel))
    &&& is_port_of(g, l.input_port, t, dest_port_name(channel))
}

/// Planning stops at a missing monitor port `port` of `d`: the left one, or
/// the right one once the left channel was found on both nodes.
pub open spec fn source_missing(g: Graph, d: u32, t: u32, port: Seq<char>) -> bool {
    ||| port == source_port_name(0) && !has_port(g, d, source_port_name(0))
    ||| port == source_port_name(1) && has_port(g, d, source_port_name(0)) && has_port(g, t, dest_port_name(0))
        && !has_port(g, d, source_port_name(1))
}

/// Planning stops at a missing playback port `port` of `t`: the left one once
/// the left monitor port was found, or the right one once all before it were.
pub open spec fn dest_missing(g: Graph, d: u32, t: u32, port: Seq<char>) -> bool {
    ||| port == dest_port_name(0) && has_port(g, d, source_port_name(0)) && !has_port(g, t, dest_port_name(0))
    ||| port == dest_port_name(1) && has_port(g, d, source_port_name(0)) && has_port(g, t, dest_port_name(0))
        && has_port(g, d, source_port_name(1)) && !has_port(g, t, dest_port_name(1))
}

/// Links one channel of `d` to `t`.
fn plan_channel(
    graph: &Graph,
    d: u32,
    t: u32,
    src: &str,
    dst: &str,
    default_sink_name: &str,
    target_sink_name: &str,
) -> (r: Result<LinkSpec, LinkError>)
    ensures
        match r {
            Ok(l) => l.output_node == d && l.input_node == t && is_port_of(*graph, l.output_port, d, src@)
                && is_port_of(*graph, l.input_port, t, dst@),
            Err(LinkError::SourcePortNotFound { port, node }) => port@ == src@ && node@ == default_sink_name@
                && !has_port(*graph, d, src@),
            Err(LinkError::DestPortNotFound { port, node }) => port@ == dst@ && node@ == target_sink_name@
                && has_port(*graph, d, src@) && !has_port(*graph, t, dst@),
            Err(_) => false,
        },
{
    let src_port = match graph.port_by_name(d, src) {
        Some(p) => p,
        None => {
            proof {
                assert forall|port: u32| !is_port_of(*graph, port, d, src@) by {
                    if graph.port_map().contains_key(port) {
                        assert(!(graph.port_map()[port].node_id == d && graph.port_map()[port].name@ == src@));
                    }
                }
            }
            return Err(LinkError::SourcePortNotFound { port: src.to_owned(), node: default_sink_name.to_owned() });
        },
    };
    assert(is_port_of(*graph, src_port.id, d, src@));
    let dst_port = match graph.port_by_name(t, dst) {
        Some(p) => p,
        None => {
            proof {
                assert forall|port: u32| !is_port_of(*graph, port, t, dst@) by {
                    if graph.port_map().contains_key(port) {
                        assert(!(graph.port_map()[port].node_id == t && graph.port_map()[port].name@ == dst@));
                    }
                }
            }
            return Err(LinkError::DestPortNotFound { port: dst.to_owned(), node: target_sink_name.to_owned() });
        },
    };
    Ok(LinkSpec { output_port: src_port.id, input_port: dst_port.id, output_node: d, input_node: t })
}

/// The links to make, in order, and the error that stops the rest, if any.
/// Links are made one channel at a time: where the right channel cannot be
/// resolved, the left link comes before the error.
#[derive(Debug)]
pub struct LinkPlan {
    pub links: Vec<LinkSpec>,
    pub error: Option<LinkError>,
}

/// How many links come before an error about `port`: none for a left-channel
/// port, one for a right-channel port.
pub open spec fn links_before(port: Seq<char>) -> int {
    if port == source_port_name(0) || port == dest_port_name(0) {
        0
    } else {
        1
    }
}

/// `links` and `error` are what planning the links from a node named
/// `default_name` to a node named `target_name` gives.
pub open spec fn plan_holds(
    g: Graph,
    default_name: Seq<char>,
    target_name: Seq<char>,
    links: Seq<LinkSpec>,
    error: Option<LinkError>,
) -> bool {
    match error {
        None => links.len() == 2 && exists|d: u32, t: u32|
            #![trigger is_node_named(g, d, default_name), is_node_named(g, t, target_name)]
            is_node_named(g, d, default_name) && is_node_named(g, t, target_name) && links_channel(g, links[0], d, t, 0)
                && links_channel(g, links[1], d, t, 1),
        Some(LinkError::DefaultSinkNotFound { name }) => links.len() == 0 && name@ == default_name && !has_node_named(
            g,
            default_name,
        ),
        Some(LinkError::TargetSinkNotFound { name }) => links.len() == 0 && name@ == target_name && has_node_named(
            g,
            default_name,
        ) && !has_node_named(g, target_name),
        Some(LinkError::SourcePortNotFound { port, node }) => node@ == default_name && links.len() == links_before(port@)
            && exists|d: u32, t: u32|
            #![trigger is_node_named(g, d, default_name), is_node_named(g, t, target_name)]
            is_node_named(g, d, default_name) && is_node_named(g, t, target_name) && source_missing(g, d, t, port@)
                && (links.len() == 1 ==> links_channel(g, links[0], d, t, 0)),
        Some(LinkError::DestPortNotFound { port, node }) => node@ == target_name && links.len() == links_before(port@)
            && exists|d: u32, t: u32|
            #![trigger is_node_named(g, d, default_name), is_node_named(g, t, target_name)]
            is_node_named(g, d, default_name) && is_node_named(g, t, target_name) && dest_missing(g, d, t, port@)
                && (links.len() == 1 ==> links_channel(g, links[0], d, t, 0)),
    }
}

/// The links that route the default sink's monitor ports into the target
/// sink's playback ports: `monitor_FL` to `playback_FL`, then `monitor_FR`
/// to `playback_FR`, each as far as the graph allows.
pub fn plan_links(graph: &Graph, default_sink_name: &str, target_sink_name: &str) -> (r: LinkPlan)
    ensures
        plan_holds(*graph, default_sink_name@, target_sink_name@, r.links@, r.error),
        plan_links_owed(*graph, default_sink_name@, target_sink_name@) ==> r.error is None,
{
    let mut links: Vec<LinkSpec> = Vec::new();
    let default_node = match graph.node_by_name(default_sink_name) {
        Some(n) => n,
        None => {
            proof {
                assert forall|id: u32| !is_node_named(*graph, id, default_sink_name@) by {
                    if graph.node_map().contains_key(id) {
                        assert(graph.node_map()[id].name@ != default_sink_name@);
                    }
                }
            }
            return LinkPlan {
                links,
                error: Some(LinkError::DefaultSinkNotFound { name: default_sink_name.to_owned() }),
            };
        },
    };
    let d: u32 = default_node.id;
    assert(is_node_named(*graph, d, default_sink_name@));
    let target_node = match graph.node_by_name(target_sink_name) {
        Some(n) => n,
        None => {
            proof {
                assert forall|id: u32| !is_node_named(*graph, id, target_sink_name@) by {
                    if graph.node_map().contains_key(id) {
                        assert(graph.node_map()[id].name@ != target_sink_name@);
                    }
                }
            }
            return LinkPlan {
                links,
                error: Some(LinkError::TargetSinkNotFound { name: target_sink_name.to_owned() }),
            };
        },
    };
    let t: u32 = target_node.id;
    assert(is_node_named(*graph, t, target_sink_name@));
    proof {
        reveal_strlit("monitor_FL");
        reveal_strlit("playback_FL");
        reveal_strlit("monitor_FR");
        reveal_strlit("playback_FR");
        assert("monitor_FL"@ =~= source_port_name(0));
        assert("playback_FL"@ =~= dest_port_name(0));
        assert("monitor_FR"@ =~= source_port_name(1));
        assert("playback_FR"@ =~= dest_port_name(1));
        assert(source_port_name(0) != source_port_name(1));
        assert(source_port_name(0) != dest_port_name(0));
        assert(source_port_name(1) != dest_port_name(0));
        assert(dest_port_name(1) != dest_port_name(0));
        assert(dest_port_name(1) != source_port_name(0));
    }
    let left = match plan_channel(graph, d, t, "monitor_FL", "playback_FL", default_sink_name, target_sink_name) {
        Ok(l) => l,
        Err(e) => {
            assert(e matches LinkError::SourcePortNotFound { port, .. } ==> source_missing(*graph, d, t, port@)
                && links_before(port@) == 0);
            assert(e matches LinkError::DestPortNotFound { port, .. } ==> dest_missing(*graph, d, t, port@)
                && links_before(port@) == 0);
            return LinkPlan { links, error: Some(e) };
        },
    };
    assert(has_port(*graph, d, source_port_name(0)) && has_port(*graph, t, dest_port_name(0))) by {
        assert(is_port_of(*graph, left.output_port, d, source_port_name(0)));
        assert(is_port_of(*graph, left.input_port, t, dest_port_name(0)));
    }
    links.push(left);
    assert(links_channel(*graph, links[0], d, t, 0));
    match plan_channel(graph, d, t, "monitor_FR", "playback_FR", default_sink_name, target_sink_name) {
        Ok(right) => {
            links.push(right);
            assert(links_channel(*graph, links[0], d, t, 0) && links_channel(*graph, links[1], d, t, 1));
            LinkPlan { links, error: None }
        },
        Err(e) => {
            assert(e matches LinkError::SourcePortNotFound { port, .. } ==> source_missing(*graph, d, t, port@)
                && links_before(port@) == 1);
            assert(e matches LinkError::DestPortNotFound { port, .. } ==> dest_missing(*graph, d, t, port@)
                && links_before(port@) == 1);
            LinkPlan { links, error: Some(e) }
        },
    }
}

/// The links that would route the default sink into `target_sink_name`,
/// where the default sink is known.
pub fn links_for_sink(graph: &Graph, default_sink: Option<&str>, target_sink_name: &str) -> (r: Result<
    LinkPlan,
    LinkRequestError,
>)
    ensures
        default_sink is None <==> r is Err,
        default_sink matches Some(d) ==> r matches Ok(p) && plan_holds(
            *graph,
            d@,
            target_sink_name@,
            p.links@,
            p.error,
        ),
{
    match default_sink {
        None => Err(LinkRequestError::NoDefaultSink),
        Some(d) => Ok(plan_links(graph, d, target_sink_name)),
    }
}

/// Both sinks are present and every node carrying their names has the ports
/// the links need.
pub open spec fn plan_links_owed(g: Graph, default_name: Seq<char>, target_name: Seq<char>) -> bool {
    &&& has_node_named(g, default_name)
    &&& has_node_named(g, target_name)
    &&& all_named_have_ports(g, default_name, true)
    &&& all_named_have_ports(g, target_name, false)
}

/// Destroys the links recorded for `target_sink_name`: they are taken out of
/// `active` and handed back, and dropping them removes them from the graph.
pub fn destroy_links<L>(active: &mut NameMap<Vec<L>>, target_sink_name: &str) -> (r: Option<Vec<L>>)
    ensures
        final(active)@ == old(active)@.remove(target_sink_name@),
        match r {
            Some(links) => old(active)@.contains_key(target_sink_name@) && old(active)@[target_sink_name@] == links,
            None => !old(active)@.contains_key(target_sink_name@),
        },
{
    active.remove(target_sink_name)
}

/// Links recorded for a sink are exactly what destroying that sink's links
/// hands back, and afterwards none are recorded for it.
pub proof fn law_destroy_after_record<L>(
    before: NameMap<Vec<L>>,
    recorded: NameMap<Vec<L>>,
    after: NameMap<Vec<L>>,
    name: Seq<char>,
    links: Vec<L>,
    r: Option<Vec<L>>,
)
    requires
        recorded@ == before@.insert(name, links),
        after@ == recorded@.remove(name),
        match r {
            Some(l) => recorded@.contains_key(name) && recorded@[name] == l,
            None => !recorded@.contains_key(name),
        },
    ensures
        r == Some(links),
        !after@.contains_key(name),
        forall|k: Seq<char>| k != name ==> after@.contains_key(k) == before@.contains_key(k),
{
}

} // verus!
