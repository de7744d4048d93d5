# Web Bridge

A local host for web apps. A web app connects out to the bridge over a WebSocket and announces its
operations; any local client discovers and calls them over plain HTTP, as REST or as MCP. The bridge
never looks into what it relays.

The library is written in Verus. It holds everything that the bridge decides: who is connected and
under which name, which call a reply belongs to, what a client is answered, and what the discovery
documents say. Sockets, clocks that wait, and HTTP are the program's, under `app/`.

| Module                 | What it holds                                                     |
| ---------------------- | ----------------------------------------------------------------- |
| `text`, `table`        | operations on text, and tables with different keys                |
| `json`, `codec`        | JSON values, and their text as serde_json reads and writes it     |
| `slug`, `chance`       | names that can stand in a path; random ids and the time           |
| `wire`, `hub_error`    | the frames between the bridge and an app; what clients see fail   |
| `registry`             | the connected instances and the calls in flight                   |
| `discovery`            | the discovery document and the status snapshot                    |
| `server`, `socket`     | what comes of a request, and of an event on an app's connection   |
| `laws`                 | what holds across these operations                                |

`AppState<S, W>` is the state of the bridge. `S` is what reaches a connection and `W` is what wakes
the client of a call; the program chooses both. `app/main.rs` is the server alone, and
`app/desktop.rs` is the server with its window, which needs tauri.

The bridge listens on `127.0.0.1:7421`. If that port is taken it tries the 19 after it, and then takes
one that the system chooses.
