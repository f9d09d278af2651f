# sndlab

A graphical environment for procedural sound design: patches are written
in a small Rhai DSL, rendered to audio, played through Kira, and shown in
a waveform / spectrum scope. An MCP server lets an external agent edit and
play the same script the user works on.

## Layout

- `src/` — the verified core, checked with Verus:
  - `project`, `listing`, `source_map`: the project model (scripts,
    manifest, dirty tracking, the concatenated source and the mapping of
    its lines back to scripts, the directory listing that seeds a
    manifest).
  - `patches`, `ambient`, `ambient_start`: the patch table filled by
    evaluation, the table of running ambient loops, and the order in
    which a restart or crossfade takes the running instance out.
  - `sample_paths`: where a `sample("…")` call looks for its file.
  - `session`: editor-session decisions (arming, ambient reconciliation
    after evaluation, what a successful evaluation logs and plays,
    live-evaluation debounce, error reporting, the
    confirm-before-discard flow, new script names).
  - `edit`: the text-edit tool and the state reports served to the agent.
  - `fade`, `delay_line`, `handle`: sample-counting state machines of the
    streaming runtime and the stop handle shared with the audio thread.
  - `log`, `layout`, `error`, `text`, `externals`: the bounded log pane,
    scope/spectrum index arithmetic, error types, string helpers and the
    few standard-library calls the core makes.
- `app/` — the program around the core: the egui front end, file and
  audio I/O, the Rhai engine and DSL, floating-point signal processing,
  and the MCP server.
- `tests/` — tests of the core's public interface.

## Not carried over

Adding, renaming and deleting scripts from the editor are not offered:
the project model defines no rules for them (which names are valid,
what happens to the file on disk, which script becomes active), so the
filename and delete dialogs are dismissed. `session::default_new_filename`,
which proposes a collision-free name for a new script, is kept and
verified for when that model exists.

The MCP server (`app/mcp.rs`) and the file dialogs use rmcp, axum, tokio
and rfd, and `app/syntax.rs` (not wired into the front end) uses syntect
and ratatui; these crates are not among the dependencies of this build.
