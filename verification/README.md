# Perch

A mascot companion for [opencode](https://github.com/anomalyco/opencode): it
watches opencode's session events and notifies you when opencode has finished
working for at least ten seconds.

`src/` is the verified library (Verus):

| Module | What it holds |
|--------|---------------|
| `state_machine` | the mascot states, the event-driven transitions and their laws |
| `ingest` | event names of the plugin bridge, and the reaction to a state change |
| `sse_client` | the decoder of opencode's server-sent-events stream and the per-chunk handler |
| `config` | configuration from the environment's values, and the stream URL |
| `plugin_installer` | plugin paths, version check, and registration in `opencode.jsonc` |
| `tray` | the tray menu's decisions |
| `text` | trimming, prefixes, decimal numbers and string order over `char` sequences |

`app/` is the Tauri application around it: windows, tray, HTTP server, SSE
connection, file system and notifications. It carries out what the library
decides. `tests/` exercises the library.

The perch-bridge plugin itself (JavaScript that posts each opencode event to
the ingest server) is held as text in `app/plugin_installer.rs`; the
application writes it to opencode's plugin directory and registers it there.
