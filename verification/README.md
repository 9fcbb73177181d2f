# patchwire

Route audio to several outputs at once on Linux: a daemon watches the
PipeWire graph and links the default sink's monitor ports to the playback
ports of every secondary sink that is switched on. A command line and a GTK
window talk to the daemon over D-Bus.

Layout:

- `src/` — the library, proved with Verus:
  - `graph.rs` — the nodes and ports of the audio graph;
  - `names.rs` — maps keyed by name (sink switches, profiles, live links);
  - `state.rs`, `config.rs` — the per-sink switches and the settings with
    their profiles;
  - `daemon.rs` — what the daemon answers on D-Bus, which sinks have live
    links, and how it applies graph events, relinking enabled sinks as
    devices and the default sink change;
  - `registry.rs` — reading PipeWire registry properties and the default-sink
    metadata;
  - `link_manager.rs` — which links route one sink into another;
  - `client.rs` — finding a sink by name for the command line and laying out
    the window;
  - `startup.rs` — how the window makes sure the daemon runs: ping, start
    the user service, or spawn the daemon program, and wait for an answer;
  - `text.rs` — string search and comparison.
- `app/` — the programs: the daemon's PipeWire thread and D-Bus server, the
  command line, the window, and reading and writing the files in
  `~/.config/patchwire/`.
- `tests/` — tests of the library.
