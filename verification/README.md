# soniox_asr

A client for the Soniox real-time speech recognition service, with a verified core.

`src/` is the core, proved with Verus. It decides what a session sends, what it makes of what
comes in, and which events and errors it gives:

- `config`, `error`, `event`: the settings, errors and events of a session
- `message`: the configuration message and the settings it is made of
- `handshake`: the plan for opening the connection, with the headers to set
- `json`, `response`: JSON documents and the service's responses
- `session`: what a session holds and how it moves on, as specifications
- `provider`: the session, as code that follows them
- `laws`: what holds of a session as a whole
- `text`: text helpers

`app/` is the network side: the WebSocket, the timeout and the log. `tests/` runs the core.
