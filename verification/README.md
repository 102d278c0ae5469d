# we-layerd (verified core)

`we-layerd` runs Wallpaper Engine wallpapers behind the desktop on Wayland.
This crate is its decision-making core, written in Verus: the functions in
`src/` carry contracts that Verus proves, and the properties the daemon relies
on are stated as proof functions (`lemma_*`). The few calls into std and
outside crates (byte decoding, JSON parsing, `Debug` and TOML string quoting,
prefix stripping, the control channel's send, which also records the command
in the channel's log, the clock, libc's poll flags) stand behind
small trusted functions whose contracts restate what their documentation says
and are not proved; where the outcome depends on the clock or on another
process (the shutdown flag, the clock-based seed), the function states what
holds whatever the outcome.

## Layout

- `src/control.rs`, `src/statuses.rs` – runtime control (pause/resume/stop),
  lifecycle phases and generations, the control server's handling of
  commands, the status report with each output's status tables.
- `src/runtime_status.rs` – the `[runtime]` table and frame lines of an
  output's status.
- `src/rules.rs`, `src/toplevels.rs`, `src/integrations.rs` – window rules:
  decoding foreign-toplevel state, tracking outputs and windows, per-output
  pause/mute policies and their generation counter.
- `src/media.rs` – choosing the MPRIS player whose metadata is shown.
- `src/dmabuf.rs` – DMA-BUF feedback: format tables, tranches, the formats
  offered to the renderer.
- `src/playlist.rs` – playlist timing (pause-aware timer), seeds, state paths.
- `src/orchestrator.rs` – which per-output workers to start, restart or stop,
  and whether a worker runs its loop again.
- `src/surface_setup.rs` – checks and choices when the layer surface is set up.
- `src/present.rs`, `src/hooks.rs` – frame pacing, frame counters, opaque
  formats, and the `wallpaper_applied` hook triggers.
- `src/input.rs`, `src/pointer.rs` – scroll steps, button mapping, pointer
  focus and buttons, and the coalescing queue of renderer input.
- `src/window.rs`, `src/audio.rs` – the bounded window of recent audio
  samples, and when the audio collector opens, reads or idles.
- `src/placement.rs` – where the XWayland wallpaper window of a monitor goes.
- `src/install.rs` – install prefixes, `~` expansion, install and uninstall
  paths, renderer library lookup.
- `src/doctor.rs`, `src/outputs.rs`, `src/backend.rs`, `src/config.rs`,
  `src/cli.rs`, `src/text.rs`, `src/bytes.rs`, `src/ordered.rs` – report lines,
  output naming, backends, configuration defaults, command-line commands and
  small text and byte helpers.
- `app/` – the command-line program around the core: argument parsing,
  configuration files, Wayland queries and the `doctor` report.
- `tests/` – tests of the core on concrete values.
