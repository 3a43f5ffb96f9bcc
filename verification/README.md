# scrimora_link

The verified core of Scrimora Link, the desktop companion that pairs the
Scrimora web app with the local League of Legends client.

- `src/` is the library, checked by Verus:
  - `app_state`: the allowlist of origins, the one-shot pairing session that a
    deep link arms and a websocket handshake consumes, and the bridge's port;
  - `deep_link`: arming a session from a deep link's query;
  - `bridge`: the decisions of the loopback websocket bridge;
  - `lockfile`: choosing the running client and reading its credentials;
  - `lcu`: requests to the client's API, and the recent custom games and
    source context built from its answers;
  - `config`: telemetry and updater settings;
  - `telemetry`: the body of a telemetry event;
  - `messages`: the messages of the bridge;
  - `text`: character-level trimming, splitting, comparing and number
    formatting and parsing;
  - `bindings` and `clock`: the calls into `chrono`, `base64`, `url` and the
    standard library's clock.
- `tests/` exercises the library.
- `app/` is the Tauri application around it: windows, tray, updater, the
  websocket server, HTTP requests to the client, environment variables and
  files.
