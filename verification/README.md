# zenvx

The logic of the ZenvX OS userspace, verified with Verus: the agent's safety gate
(risk classification of shell commands and the double-confirmation protocol), the
app launcher's routing and shell quoting, the mode policy, the compositor's zone
layout and tiling, the configuration file format, the REPL's tool-call turn logic,
the streaming reply readers, the first-boot flow, the TUI's state and key handling,
the voice interaction's steps, and the settings and session state.

- `src/` — the verified library, one module per subsystem (`text` holds the shared
  character-sequence primitives and their specifications).
- `tests/` — tests of the library on concrete values.
- `app/` — the programs around it: file, process, network and terminal I/O, the
  loops that drive the library's step functions, and rendering.
