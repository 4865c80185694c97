# herdr-glance-core

The verified core of a small always-on-top widget that shows the agents of a
Herdr session, run locally or over SSH.

- `src/` is the library, checked by Verus: settings validation, shell quoting
  and the Herdr command lines, reading a process outcome, the session snapshot
  (decoded with `serde_json`, held as a plain JSON tree) turned into the sorted
  agent list, and the decisions around opening an agent in Ghostty.
- `src/laws.rs` states what holds of every input: quoted words read back
  unchanged, a valid SSH host is never an option, and every snapshot gives
  well-formed agents in display order, whatever order Herdr lists them in.
- `app/` is the desktop shell around it: the settings file, processes and
  timeouts, the Tauri commands and window handling.
- `tests/` runs the library on concrete values.
