# agent_term_cli

A multi-tab terminal client for agent-term MCP servers, with its logic
verified by Verus.

- `src/` is the verified library:
  - `text`: character-level string helpers (prefixes, line splitting,
    substring search, white-space trimming, decimal rendering) and the few
    `std` string calls it trusts (`String::push`, `String::pop`).
  - `history`: the per-tab command history (bounded recording, Up/Down
    navigation with a saved draft, reverse search, prefix completion).
  - `tab`: the scrollback buffer, a tab's connection states, and how a new
    screen updates the scrollback.
  - `input`: the key bindings.
  - `config`: configuration defaults, and where the configuration file and
    the histories live on each platform (`char::is_alphanumeric` is trusted
    for history file names).
  - `client`: endpoint normalisation, request numbering, JSON-RPC replies,
    tool reply texts, the cursor reply (parsed by `serde_json` behind a
    trusted wrapper) and error messages.
  - `app`: the application state and what every action does; work that needs
    the network, the disk or the clipboard is returned as an `Effect`.
  - `view`: the texts and lines that the screen shows.
- `app/` is the program around it: argument parsing, the terminal UI
  (crossterm, ratatui), HTTP (ureq), the clipboard (arboard), and the TOML
  and JSON files (serde, toml, serde_json).
- `tests/` exercises the library.
