use vstd::prelude::*;

use crate::graph::{NodeInfo, PortInfo};

verus! {

/// Commands sent from the D-Bus side down to the PipeWire thread.
#[derive(Debug)]
pub enum PwCommand {
    /// Create monitor links from the current default sink to this target sink.
    LinkSink { name: String },
    /// Destroy any active links to this target sink.
    UnlinkSink { name: String },
    /// Make this sink the system default.
    SetDefaultSink { name: String },
    /// Shut down the PipeWire main loop cleanly.
    Quit,
}

/// Events sent from the PipeWire thread up to the D-Bus side.
#[derive(Debug)]
pub enum PwEvent {
    NodeAdded(NodeInfo),
    NodeRemoved(u32),
    PortAdded(PortInfo),
    PortRemoved(u32),
    /// A new audio sink appeared in the graph.
    SinkAdded { name: String, description: String },
    /// An audio sink was removed from the graph.
    SinkRemoved { name: String },
    /// The default sink changed.
    DefaultChanged { name: String },
}

} // verus!
