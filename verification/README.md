# whalenest

The decision logic of the Whale Nest desktop companion for the `dsh` kernel,
written in Verus and proved against its contracts.

- `src/` is the verified library: app state and its migration, profile
  handling, the kernel supervisor state machine (start, readiness, crash
  brake, restart), shebang and PATH resolution, port detection, plugin
  listing and enable/disable rules, GitHub and npm install specifiers,
  version comparison, update checks, desktop-entry and autostart contents,
  and the UI status texts. Calls into `serde_json` and `toml` stand behind a
  few trusted wrappers whose contracts say what those crates return.
- `app/` is the unverified program around it: file and process I/O, the
  event loop that performs the library's actions, serde copies of the stored
  state.
- `tests/` runs the library on concrete values.
