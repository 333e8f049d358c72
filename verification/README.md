# wormhole_gui

A desktop client for [magic-wormhole](https://magic-wormhole.readthedocs.io):
two people share a short code, then exchange chat messages and files over
the wormhole mailbox and transit relays.

The decisions of the client live in a library verified with Verus
(`src/`); a thin Tauri host (`app/`) does the I/O around it.

## Layout

- `src/text.rs`: character-level string helpers with specifications
  (trimming, searching, splitting, decimal and hex digits).
- `src/error.rs`: `CoreError`, its stable codes and its English and
  Chinese messages.
- `src/protocol.rs`: the application messages carried over the mailbox and
  their version check.
- `src/session.rs`: the session state machine. `Transfers` keeps the
  outgoing and incoming file offers; every local command and every peer
  message is a step from state to next state and a list of actions for the
  host to perform.
- `src/transfer.rs`: transit relay parsing and the byte accounting of a
  file transfer (progress throttling, never writing past the declared
  size).
- `src/storage.rs`: file-name sanitising for received files and the
  numbered alternatives tried when a name is taken.
- `src/config.rs`: the settings and their defaults.
- `src/bridge.rs`: how session events become UI events; short-code
  splitting; log-line escaping.
- `src/updater.rs`: version comparison, choosing the portable build from
  the update manifest, and signature checking of a download.
- `src/diag.rs`: small formatting helpers.
- `src/laws.rs`: properties that span several functions, stated and proved
  as proof functions.
- `app/`: the Tauri host: commands, the session thread that drives
  magic-wormhole, settings file I/O, logging and self-update I/O.
- `tests/`: executable tests of the library.
