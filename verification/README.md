# herdr-modes

Zellij-style sticky modes for [herdr](https://herdr.dev): press a prefix, then
drum pane, tab, move, agent or space keys without re-pressing the prefix. A
keybind runs the plugin's `open` action, which opens a session-modal popup
running the key loop; every key is dispatched over the herdr socket API.

The library is written in Verus and verified. The properties the plugin
promises are stated and proved in `src/`; what herdr answers, what the note
store holds and what the clock reads come from outside, and the contracts say
what holds whatever they return.

## Layout

- `src/keymap.rs` — the action table, key specs, per-mode key tables and the
  generated hint legend.
- `src/config.rs` — what a parsed config file means: every mode's table built
  from the exits and the user's bindings, with a warning per binding that does
  not parse.
- `src/nav.rs` — the index arithmetic of the tab, agent and space rings.
- `src/script.rs` — what a session does to the world, as the script of requests
  it sends and what it makes of each reply; each action is specified there.
- `src/modes.rs` — the session: runs an action against the herdr API and keeps
  track of focus, where it came from, and where the mode opened.
- `src/run.rs` — one key through a mode: which binding it hit, what the action
  did, and whether the popup stays, exits, or hops to a fresh popup.
- `src/resume.rs` — the note a popup leaves when it hops, where it is kept and
  when it is honoured.
- `src/start.rs` — what `open` asks herdr for and makes of its answers.
- `src/client.rs`, `src/hint.rs`, `src/text.rs`, `src/search.rs` — the wire
  format, the hint bar's text, and the string and search helpers.
- `app/` — the binary: argument handling, the socket, the terminal, the config
  file and the hop note on disk.
- `tests/` — the tests, run against the compiled library.

## Commands

- `herdr-modes open <mode>` — open a mode's popup (run by a plugin action).
- `herdr-modes run <mode>` — the key loop inside the popup.
- `herdr-modes check [path]` — validate the config and print the keymaps.
- `herdr-modes check --actions` — print the action table.
