# PushMe message server

A self-hosted push service: messages come in over HTTP, as plain requests or as
webhooks of other services, and go out over MQTT, directly or through
WebSockets. A small panel configures it.

`src/` is a library that Verus verifies. It holds the rules of the service: how
requests are read, who may do what, which messages wait for whom, how an MQTT
session proceeds, what is answered. Contracts are stated over mathematical
views of the types; properties that span several functions are proof functions
whose names begin with `law_`.

`app/` is the program around the library: sockets, files, TLS, the message
router's thread and the HTTP framework. `tests/` runs the library.

| Modules | |
|---|---|
| `text`, `json`, `clock`, `crypto`, `ip` | values the rest is built on |
| `config`, `auth`, `certs`, `startup` | configuration, users and sessions, certificates |
| `third`, `feishu`, `weiding`, `push_api`, `publish`, `push_log`, `reply` | from a push request to its answer |
| `topic_map`, `mqtt`, `packet`, `session`, `session_laws`, `sniff` | MQTT |
| `pages`, `panel`, `settings`, `login` | the panel |
