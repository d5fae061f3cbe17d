# clipsync

A clipboard synchronisation service: a server that stores clipboard entries and
relays them over WebSocket, and a Windows tray client that pushes local clipboard
changes and writes the ones received from other devices.

The library (`src/`) holds the logic of both, written in Verus and proved against
its contracts:

- `protocol` — the profile record and the WebSocket messages.
- `server` — Basic/WebSocket authentication, settings from the environment,
  stored-file names and paths, row decoding, the channel's routing rule and the
  decisions of a WebSocket session, including the order in which it opens.
- `desktop` — settings and URLs, clipboard contents, hashing and the change
  monitor, the upload/download plan of a clipboard change, the steps of a
  synchronisation tick and the reconnect wait, the tray's state machine, the
  bilingual menu texts, hotkey parsing and menu actions.
- `text`, `codec` — verified text operations and the calls into base64, sha2,
  hex, uuid and image.

`app/` runs the programs: the axum server with its SQLite store, and the Windows
client with tray icon, hotkeys and the synchronisation loop.
